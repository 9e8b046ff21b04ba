//! Opening documents, and loading and resizing their images.
use ratatui_image::picker::Picker;
use ratatui_image::protocol::StatefulProtocol;
use std::collections::BTreeMap;
use std::path::PathBuf;
use vstd::prelude::*;

use crate::app::{string_view, App, AppView, Mode, ModeView};
use crate::chars::{decimal, decimal_text, owned};
use crate::html::{pattern_failure, PatternError};
use crate::inline_image::{
    encoded_for, encoder_cell, encoder_image, encoder_kind, encoder_pixels, inline_images_view,
    is_encodable, kind_of, prepare_images_for_doc, prepared_images, resize_encode, InlineImage,
    InlineView,
};
use crate::numbers::minus;
use crate::page::DocView;
use crate::renderer::{render_markdown, rendered};
use crate::screen::ProtocolType;
use crate::source::{copy_path, show_path, shown_path, text_view, ResolvedImageSource, SourceView};
use crate::variant::{ImageResizeVariant, Rect, Resize};

verus! {

/// What is wanted of the loader.
#[derive(Debug)]
pub enum ImageLoadJob {
    /// Only the size of an image in a file.
    ProbeLocalDimensions(PathBuf),
    LoadImage(ResolvedImageSource),
}

/// What an [`ImageLoadJob`] holds.
pub enum JobView {
    ProbeLocalDimensions(PathBuf),
    LoadImage(SourceView),
}

impl View for ImageLoadJob {
    type V = JobView;

    open spec fn view(&self) -> JobView {
        match *self {
            ImageLoadJob::ProbeLocalDimensions(path) => JobView::ProbeLocalDimensions(path),
            ImageLoadJob::LoadImage(source) => JobView::LoadImage(source@),
        }
    }
}

/// A request to the loader.
#[derive(Debug)]
pub struct ImageLoadRequest {
    pub image_index: usize,
    pub job: ImageLoadJob,
}

/// What an [`ImageLoadRequest`] holds.
pub struct RequestView {
    pub image_index: usize,
    pub job: JobView,
}

impl View for ImageLoadRequest {
    type V = RequestView;

    open spec fn view(&self) -> RequestView {
        RequestView { image_index: self.image_index, job: self.job@ }
    }
}

/// What a run of requests holds.
pub open spec fn requests_view(requests: Seq<ImageLoadRequest>) -> Seq<RequestView> {
    Seq::new(requests.len(), |i: int| requests[i]@)
}

/// What the loader found.
#[derive(Debug)]
pub enum ImageLoadResultPayload {
    ProbedDimensions(Option<(u32, u32)>),
    LoadedImage(Option<image::DynamicImage>),
}

/// An answer of the loader.
#[derive(Debug)]
pub struct ImageLoadResult {
    pub image_index: usize,
    pub payload: ImageLoadResultPayload,
}

/// Whether bytes may be decoded to an image, or to none.
pub uninterp spec fn may_decode_to(bytes: Seq<u8>, image: Option<image::DynamicImage>) -> bool;

/// `image::load_from_memory` guesses the format from the first bytes and decodes the rest by it.
/// Which image that is, is not stated: the process may have registered decoders for other formats,
/// and some decoders choose among their ways by what the processor can do.
#[verifier::external_body]
fn decode(bytes: &Vec<u8>) -> (image: Option<image::DynamicImage>)
    ensures
        may_decode_to(bytes@, image),
{
    image::load_from_memory(bytes).ok()
}

/// The answer to a request for an image; `None` where it could not be had.
pub fn answer_with_image(image_index: usize, image: Option<image::DynamicImage>) -> (result:
    ImageLoadResult)
    ensures
        result.image_index == image_index,
        result.payload == ImageLoadResultPayload::LoadedImage(image),
{
    ImageLoadResult { image_index, payload: ImageLoadResultPayload::LoadedImage(image) }
}

/// The answer to a request for an image whose bytes have been fetched; `None` where they could not
/// be. What the bytes are decoded to is handed on as it is.
pub fn answer_with_bytes(image_index: usize, bytes: Option<Vec<u8>>) -> (result: ImageLoadResult)
    ensures
        result.image_index == image_index,
        result.payload is LoadedImage,
        bytes is None ==> result.payload == ImageLoadResultPayload::LoadedImage(None),
        bytes matches Some(known) ==> may_decode_to(known@, result.payload->LoadedImage_0),
{
    let image = match bytes {
        Some(known) => decode(&known),
        None => None,
    };
    answer_with_image(image_index, image)
}

/// A request to encode an image for a size.
pub struct ImageResizeRequest {
    pub image_index: usize,
    pub variant: ImageResizeVariant,
    pub resize: Resize,
    pub area: Rect,
    pub protocol: StatefulProtocol,
    /// The size of the terminal's cells, in pixels.
    pub cell: (u16, u16),
}

/// An image that has been encoded for a size.
pub struct ImageResizeResult {
    pub image_index: usize,
    pub variant: ImageResizeVariant,
    pub protocol: StatefulProtocol,
}

impl ImageResizeRequest {
    /// Whether the encoder reckons with the cells of the terminal.
    pub open spec fn is_sound(self) -> bool {
        encoder_cell(self.protocol) == self.cell
    }

    /// Whether the image can be encoded for its area, whatever it shows.
    pub fn can_be_encoded(&self) -> (answer: bool)
        ensures
            answer == is_encodable(encoder_kind(self.protocol), self.area, self.cell),
    {
        let width = self.area.width as u64;
        let height = self.area.height as u64;
        let cell_width = self.cell.0 as u64;
        let cell_height = self.cell.1 as u64;
        assert(width * cell_width <= 0xffff * 0xffff && height * cell_height <= 0xffff * 0xffff
            && width * height <= 0xffff * 0xffff) by (nonlinear_arith)
            requires
                width <= 0xffff,
                height <= 0xffff,
                cell_width <= 0xffff,
                cell_height <= 0xffff,
        ;
        if width == 0 || height == 0 {
            return true;
        }
        let pixel_width = width * cell_width;
        let pixel_height = height * cell_height;
        let limit: u64 = 0xffff;
        if kind_of(&self.protocol) == ProtocolType::Sixel || cell_width == 0 || cell_height == 0
            || pixel_width > limit || pixel_height > limit || width * height > limit || height * 2
            > limit {
            return false;
        }
        assert(pixel_width * pixel_height <= 0xffff * 0xffff) by (nonlinear_arith)
            requires
                pixel_width <= 0xffff,
                pixel_height <= 0xffff,
        ;
        16 * (pixel_width * pixel_height) <= 0x7fff_ffff
    }
}

/// Encodes an image for the size that it is asked for in. A request comes back as it was where that
/// cannot be done for every image.
pub fn encode(request: ImageResizeRequest) -> (result: Result<
    ImageResizeResult,
    ImageResizeRequest,
>)
    requires
        request.is_sound(),
    ensures
        result is Ok <==> is_encodable(
            encoder_kind(request.protocol),
            request.area,
            request.cell,
        ),
        result matches Ok(done) ==> done.image_index == request.image_index && done.variant
            == request.variant && done.protocol == encoded_for(
            request.protocol,
            request.resize,
            request.area,
        ) && encoder_image(done.protocol) == encoder_image(request.protocol) && encoder_pixels(
            done.protocol,
        ) == encoder_pixels(request.protocol) && encoder_cell(
            done.protocol,
        ) == request.cell && encoder_kind(done.protocol) == encoder_kind(request.protocol) && (
        request.area.width == 0 || request.area.height == 0 ==> done.protocol == request.protocol),
        result matches Err(back) ==> back == request,
{
    if !request.can_be_encoded() {
        return Err(request);
    }
    Ok(
        ImageResizeResult {
            image_index: request.image_index,
            variant: request.variant,
            protocol: resize_encode(request.protocol, request.resize, request.area),
        },
    )
}

/// How many screens above and below the page images are loaded ahead.
pub const IMAGE_PRELOAD_VIEWPORTS: usize = 2;

/// How many answers of the loader are taken at a time.
pub const MAX_IMAGE_RESULTS_PER_TICK: usize = 4;

/// Which of the first `upto` images has its caption on which line.
pub open spec fn index_by_line(images: Seq<InlineView>, upto: int) -> Map<usize, usize>
    decreases upto,
{
    if upto <= 0 {
        Map::empty()
    } else {
        index_by_line(images, upto - 1).insert(images[upto - 1].line_index, (upto - 1) as usize)
    }
}

pub proof fn lemma_index_by_line(images: Seq<InlineView>, upto: int)
    requires
        0 <= upto <= images.len() <= usize::MAX,
    ensures
        forall|i: int|
            0 <= i < upto ==> #[trigger] index_by_line(images, upto).contains_key(
                images[i].line_index,
            ),
        forall|line: usize| #[trigger]
            index_by_line(images, upto).contains_key(line) ==> index_by_line(images, upto)[line]
                < upto && images[index_by_line(images, upto)[line] as int].line_index == line,
    decreases upto,
{
    if upto > 0 {
        lemma_index_by_line(images, upto - 1);
    }
}

/// Which image has its caption on which line.
fn index_images(images: &Vec<InlineImage>) -> (index: BTreeMap<usize, usize>)
    ensures
        index@ == index_by_line(inline_images_view(images@), images@.len() as int),
{
    let ghost all = inline_images_view(images@);
    let mut index: BTreeMap<usize, usize> = BTreeMap::new();
    let mut i: usize = 0;
    while i < images.len()
        invariant
            i <= images@.len(),
            all == inline_images_view(images@),
            index@ == index_by_line(all, i as int),
        decreases images.len() - i,
    {
        assert(all[i as int] == images@[i as int]@);
        index.insert(images[i].line_index, i);
        i += 1;
    }
    index
}

/// The request for the size of an image: one without a promised size that lies in a file.
pub open spec fn probe_for(image: InlineView, image_index: int) -> Option<RequestView> {
    if image.hinted_pixel_size is Some {
        None
    } else {
        match image.source {
            Some(SourceView::Local(path)) => Some(
                RequestView {
                    image_index: image_index as usize,
                    job: JobView::ProbeLocalDimensions(path),
                },
            ),
            _ => None,
        }
    }
}

/// The requests for the sizes of the first `upto` images.
pub open spec fn probes_upto(images: Seq<InlineView>, upto: int) -> Seq<RequestView>
    decreases upto,
{
    if upto <= 0 {
        Seq::empty()
    } else {
        match probe_for(images[upto - 1], upto - 1) {
            Some(request) => probes_upto(images, upto - 1).push(request),
            None => probes_upto(images, upto - 1),
        }
    }
}

/// The requests for the sizes of all images.
pub open spec fn probes(images: Seq<InlineView>) -> Seq<RequestView> {
    probes_upto(images, images.len() as int)
}

/// What the status says of a document that has been opened.
pub open spec fn opened_status(lines: nat, images: nat) -> Seq<char> {
    if images == 0 {
        decimal_text(lines) + " lines"@
    } else {
        decimal_text(lines) + " lines, "@ + decimal_text(images) + " images (lazy load)"@
    }
}

/// What the status says of a document that has been opened again.
pub open spec fn reloaded_status(path: PathBuf, images: nat) -> Seq<char> {
    if images == 0 {
        "reloaded "@ + shown_path(path)
    } else {
        "reloaded "@ + shown_path(path) + " ("@ + decimal_text(images) + " images, lazy load)"@
    }
}

/// The viewer of a document, at a line that is counted from one.
pub open spec fn opened(
    file_path: PathBuf,
    content: Seq<char>,
    doc: DocView,
    start_line: usize,
    picker: Picker,
    system_drive: Option<Seq<char>>,
) -> AppView {
    let images = prepared_images(file_path, doc.images, system_drive);
    AppView {
        file_path,
        file_content: content,
        lines: doc.lines,
        doc_images: doc.images,
        picker,
        images,
        image_index_by_line: index_by_line(images, images.len() as int),
        scroll: minus(start_line, 1),
        status: opened_status(doc.lines.len(), images.len()),
        show_help: false,
        mode: ModeView::Normal,
        search_query: None,
        search_regex: None,
        search_matches: Seq::empty(),
        active_match: 0,
        cursor_row: minus(start_line, 1),
        cursor_column: 0,
        focused_image: None,
        row_counts: Map::empty(),
        highlighted: None,
        system_drive,
    }
}

impl AppView {
    /// The viewer with a new version of its document: nothing is known of its images, and a search
    /// goes on in it.
    pub open spec fn reloaded(self, content: Seq<char>, doc: DocView) -> AppView {
        let images = prepared_images(self.file_path, doc.images, self.system_drive);
        let app = AppView {
            file_content: content,
            lines: doc.lines,
            doc_images: doc.images,
            images,
            image_index_by_line: index_by_line(images, images.len() as int),
            focused_image: None,
            highlighted: None,
            row_counts: Map::empty(),
            ..self
        };
        AppView {
            status: reloaded_status(self.file_path, images.len()),
            ..if self.search_regex is Some {
                app.find_matches()
            } else {
                app
            }
        }
    }
}

impl App {
    /// The requests for the sizes of images in files that have no promised size.
    pub fn request_local_dimension_probes(&self) -> (requests: Vec<ImageLoadRequest>)
        ensures
            requests_view(requests@) == probes(self@.images),
    {
        let ghost images = self@.images;
        let mut requests: Vec<ImageLoadRequest> = Vec::new();
        let mut i: usize = 0;
        assert(requests_view(requests@) =~= Seq::<RequestView>::empty());
        while i < self.images.len()
            invariant
                i <= self.images@.len(),
                images == self@.images,
                requests_view(requests@) == probes_upto(images, i as int),
            decreases self.images.len() - i,
        {
            assert(images[i as int] == self.images@[i as int]@);
            let image = &self.images[i];
            if image.hinted_pixel_size.is_none() {
                if let Some(ResolvedImageSource::Local(path)) = &image.source {
                    let ghost before = requests@;
                    let request = ImageLoadRequest {
                        image_index: i,
                        job: ImageLoadJob::ProbeLocalDimensions(copy_path(path)),
                    };
                    requests.push(request);
                    assert(requests_view(requests@) =~= requests_view(before).push(request@));
                }
            }
            i += 1;
        }
        requests
    }

    /// Opens a document whose text has been read, at a line that is counted from one. What comes
    /// with the viewer has to be asked of the loader.
    pub fn new(
        file_path: PathBuf,
        content: String,
        start_line: usize,
        picker: Picker,
        system_drive: Option<String>,
    ) -> (outcome: Result<(App, Vec<ImageLoadRequest>), PatternError>)
        ensures
            outcome is Ok <==> pattern_failure() is None,
            outcome is Err ==> outcome->Err_0.message@ == pattern_failure()->0,
            outcome is Ok ==> (outcome->Ok_0).0@ == opened(
                file_path,
                content@,
                rendered(content@),
                start_line,
                picker,
                string_view(system_drive),
            ),
            outcome is Ok ==> (outcome->Ok_0).0@.is_sound(),
            outcome is Ok && start_line > 0 ==> (outcome->Ok_0).0@.cursor_row + 1 == start_line
                && (outcome->Ok_0).0@.scroll + 1 == start_line,
            outcome is Ok ==> (outcome->Ok_0).0@.lines == rendered(content@).lines,
            outcome is Ok ==> requests_view((outcome->Ok_0).1@) == probes(
                (outcome->Ok_0).0@.images,
            ),
    {
        let doc = match render_markdown(content.as_str()) {
            Ok(doc) => doc,
            Err(failure) => return Err(failure),
        };
        let images = prepare_images_for_doc(&file_path, &doc.images, option_str(&system_drive));
        let image_index_by_line = index_images(&images);
        let scroll = start_line.saturating_sub(1);
        let status = describe_opened(doc.lines.len(), images.len());
        let app = App {
            file_path,
            file_content: content,
            doc,
            picker,
            images,
            image_index_by_line,
            scroll,
            status,
            show_help: false,
            mode: Mode::Normal,
            search_query: None,
            search_regex: None,
            search_matches: Vec::new(),
            active_match: 0,
            cursor_row: scroll,
            cursor_column: 0,
            focused_image: None,
            virtual_row_count_cache: BTreeMap::new(),
            highlighted_lines_cache: None,
            system_drive,
        };
        proof {
            lemma_index_by_line(app@.images, app@.images.len() as int);
            assert(app@ =~= opened(
                file_path,
                content@,
                rendered(content@),
                start_line,
                picker,
                string_view(system_drive),
            ));
        }
        let requests = app.request_local_dimension_probes();
        Ok((app, requests))
    }

    /// Takes a new version of the document, or the reason why it could not be read. What comes back
    /// has to be asked of a new loader.
    pub fn reload(&mut self, read: Result<String, String>) -> (requests: Option<
        Vec<ImageLoadRequest>,
    >)
        requires
            old(self)@.is_sound(),
        ensures
            final(self)@.is_sound(),
            old(self)@.searches_text() ==> final(self)@.searches_text(),
            requests is Some <==> read is Ok && pattern_failure() is None,
            requests is Some ==> final(self)@ == old(self)@.reloaded(
                read->Ok_0@,
                rendered(read->Ok_0@),
            ) && requests_view(requests->0@) == probes(final(self)@.images),
            requests is None ==> final(self)@ == (AppView {
                status: "reload failed: "@ + match read {
                    Ok(_) => pattern_failure()->0,
                    Err(reason) => reason@,
                },
                ..old(self)@
            }),
    {
        let content = match read {
            Ok(content) => content,
            Err(reason) => {
                self.report_reload_failure(reason.as_str());
                return None;
            },
        };
        let doc = match render_markdown(content.as_str()) {
            Ok(doc) => doc,
            Err(failure) => {
                self.report_reload_failure(failure.message.as_str());
                return None;
            },
        };
        self.images =
        prepare_images_for_doc(&self.file_path, &doc.images, option_str(&self.system_drive));
        self.image_index_by_line = index_images(&self.images);
        self.file_content = content;
        self.doc = doc;
        self.focused_image = None;
        self.invalidate_highlight_cache();
        self.invalidate_virtual_row_cache();
        if self.search_regex.is_some() {
            self.rebuild_search_matches();
        }
        self.status = describe_reloaded(&self.file_path, self.images.len());
        proof {
            lemma_index_by_line(self@.images, self@.images.len() as int);
            assert(self@ =~= old(self)@.reloaded(content@, rendered(content@)));
        }
        Some(self.request_local_dimension_probes())
    }

    /// Says why the document could not be read again.
    fn report_reload_failure(&mut self, reason: &str)
        ensures
            final(self)@ == (AppView { status: "reload failed: "@ + reason@, ..old(self)@ }),
    {
        let mut status = owned("reload failed: ");
        status.append(reason);
        self.status = status;
    }
}

/// What the status says of a document that has been opened.
fn describe_opened(lines: usize, images: usize) -> (status: String)
    ensures
        status@ == opened_status(lines as nat, images as nat),
{
    let mut status = decimal(lines as u64);
    if images == 0 {
        status.append(" lines");
    } else {
        status.append(" lines, ");
        let number = decimal(images as u64);
        status.append(number.as_str());
        status.append(" images (lazy load)");
    }
    status
}

/// What the status says of a document that has been opened again.
fn describe_reloaded(path: &PathBuf, images: usize) -> (status: String)
    ensures
        status@ == reloaded_status(*path, images as nat),
{
    let mut status = owned("reloaded ");
    let shown = show_path(path);
    status.append(shown.as_str());
    if images > 0 {
        status.append(" (");
        let number = decimal(images as u64);
        status.append(number.as_str());
        status.append(" images, lazy load)");
    }
    status
}

/// The text of an optional string.
fn option_str(text: &Option<String>) -> (known: Option<&str>)
    ensures
        text_view(known) == string_view(*text),
{
    match text {
        Some(known) => Some(known.as_str()),
        None => None,
    }
}

} // verus!
