//! Where images come from.
use std::path::PathBuf;
use vstd::prelude::*;

use crate::chars::{
    chars_of, contains, contains_text, has_prefix, owned, starts_with, string_of, trim, trimmed,
};
use crate::width::{utf8_len, utf8_width};

verus! {

/// A path of the file system.
#[verifier::external_type_specification]
#[verifier::external_body]
pub struct ExPathBuf(std::path::PathBuf);

/// The path that a text names.
pub uninterp spec fn path_named(text: Seq<char>) -> PathBuf;

/// Whether a path does not depend on the current directory.
pub uninterp spec fn is_absolute_path(path: PathBuf) -> bool;

/// A path without its last component; `None` where there is nothing left.
pub uninterp spec fn parent_path(path: PathBuf) -> Option<PathBuf>;

/// A path that starts from another.
pub uninterp spec fn joined_path(base: PathBuf, path: PathBuf) -> PathBuf;

/// How a path is shown.
pub uninterp spec fn shown_path(path: PathBuf) -> Seq<char>;

/// `PathBuf::from` takes a text for a path, by the rules of the platform that the library is
/// built for.
#[verifier::external_body]
fn path_from(text: &str) -> (path: PathBuf)
    ensures
        path == path_named(text@),
{
    PathBuf::from(text)
}

/// `Path::is_absolute`, by the rules of the platform that the library is built for.
#[verifier::external_body]
fn is_absolute(path: &PathBuf) -> (answer: bool)
    ensures
        answer == is_absolute_path(*path),
{
    path.is_absolute()
}

/// `Path::parent`, by the rules of the platform that the library is built for.
#[verifier::external_body]
fn parent(path: &PathBuf) -> (directory: Option<PathBuf>)
    ensures
        directory == parent_path(*path),
{
    path.parent().map(|directory| directory.to_path_buf())
}

/// `Path::join`, by the rules of the platform that the library is built for.
#[verifier::external_body]
fn join(base: &PathBuf, path: &PathBuf) -> (whole: PathBuf)
    ensures
        whole == joined_path(*base, *path),
{
    base.join(path)
}

/// The text of `Path::display`.
#[verifier::external_body]
pub(crate) fn show_path(path: &PathBuf) -> (text: String)
    ensures
        text@ == shown_path(*path),
{
    path.display().to_string()
}

/// `PathBuf::clone` gives an equal path.
#[verifier::external_body]
pub(crate) fn copy_path(path: &PathBuf) -> (copy: PathBuf)
    ensures
        copy == *path,
{
    path.clone()
}

/// Where an image comes from: a file or the web.
#[derive(Debug)]
pub enum ResolvedImageSource {
    Local(PathBuf),
    Remote(String),
}

/// What a [`ResolvedImageSource`] holds.
pub enum SourceView {
    Local(PathBuf),
    Remote(Seq<char>),
}

impl View for ResolvedImageSource {
    type V = SourceView;

    open spec fn view(&self) -> SourceView {
        match *self {
            ResolvedImageSource::Local(path) => SourceView::Local(path),
            ResolvedImageSource::Remote(url) => SourceView::Remote(url@),
        }
    }
}

impl ResolvedImageSource {
    /// A copy of this source.
    pub fn duplicate(&self) -> (copy: ResolvedImageSource)
        ensures
            copy@ == self@,
    {
        match self {
            ResolvedImageSource::Local(path) => ResolvedImageSource::Local(copy_path(path)),
            ResolvedImageSource::Remote(url) => ResolvedImageSource::Remote(owned(url.as_str())),
        }
    }
}

/// What an optional source holds.
pub open spec fn source_view(source: Option<ResolvedImageSource>) -> Option<SourceView> {
    match source {
        Some(known) => Some(known@),
        None => None,
    }
}

/// A text without the slashes at its front.
pub open spec fn without_leading_slashes(text: Seq<char>) -> Seq<char>
    decreases text.len(),
{
    if text.len() > 0 && text[0] == '/' {
        without_leading_slashes(text.drop_first())
    } else {
        text
    }
}

/// Whether a path begins with a drive letter and a colon.
pub open spec fn names_drive(path: Seq<char>) -> bool {
    path.len() >= 2 && utf8_len(path[0]) == 1 && path[1] == ':'
}

/// The path that a `file://` address stands for, given what follows the two slashes. Where paths
/// have no drives it is taken as it is. Elsewhere the slashes at its front are dropped, and a path
/// that names no drive lies on the system drive.
pub open spec fn file_address_path(rest: Seq<char>, system_drive: Option<Seq<char>>) -> Seq<char> {
    match system_drive {
        None => rest,
        Some(drive) => {
            let path = without_leading_slashes(rest);
            if names_drive(path) {
                path
            } else {
                drive + "/"@ + path
            }
        },
    }
}

/// What an optional text holds.
pub open spec fn text_view(text: Option<&str>) -> Option<Seq<char>> {
    match text {
        Some(known) => Some(known@),
        None => None,
    }
}

/// The path that a `file://` address stands for, given what follows the two slashes.
pub fn local_file_path(rest: &str, system_drive: Option<&str>) -> (path: String)
    ensures
        path@ == file_address_path(rest@, text_view(system_drive)),
{
    match system_drive {
        None => owned(rest),
        Some(drive) => {
            let chars = chars_of(rest);
            let mut start: usize = 0;
            assert(chars@.skip(0) == chars@);
            while start < chars.len() && chars[start] == '/'
                invariant
                    start <= chars@.len(),
                    without_leading_slashes(chars@.skip(start as int)) == without_leading_slashes(
                        chars@,
                    ),
                decreases chars.len() - start,
            {
                assert(chars@.skip(start as int).drop_first() == chars@.skip(start + 1));
                start += 1;
            }
            let ghost left = chars@.skip(start as int);
            let path = string_of(&chars, start, chars.len());
            assert(path@ == left);
            if chars.len() - start >= 2 && utf8_width(chars[start]) == 1 && chars[start + 1]
                == ':' {
                path
            } else {
                let mut whole = owned(drive);
                whole.append("/");
                whole.append(path.as_str());
                whole
            }
        },
    }
}

/// Where the file lies that a document names by `path`: a path that is not absolute starts from
/// the directory of the document, and from the current one where the document is in none.
pub open spec fn located(path: PathBuf, absolute: bool, directory: Option<PathBuf>) -> PathBuf {
    if absolute {
        path
    } else {
        match directory {
            Some(directory) => joined_path(directory, path),
            None => joined_path(path_named("."@), path),
        }
    }
}

/// Where the file lies that a document in `directory` names by `path`.
pub fn locate(path: PathBuf, absolute: bool, directory: Option<PathBuf>) -> (place: PathBuf)
    ensures
        place == located(path, absolute, directory),
{
    if absolute {
        path
    } else {
        match directory {
            Some(directory) => join(&directory, &path),
            None => join(&path_from("."), &path),
        }
    }
}

/// Where an image comes from, given its source as the document at `markdown_path` names it:
/// nowhere if the source is blank or an address of a kind that cannot be read.
pub open spec fn resolved_source(
    markdown_path: PathBuf,
    src: Seq<char>,
    system_drive: Option<Seq<char>>,
) -> Option<SourceView> {
    let text = trimmed(src);
    if text.len() == 0 {
        None
    } else if has_prefix(text, "http://"@) || has_prefix(text, "https://"@) {
        Some(SourceView::Remote(text))
    } else if has_prefix(text, "file://"@) {
        Some(
            SourceView::Local(
                path_named(
                    file_address_path(text.skip("file://"@.len() as int), system_drive),
                ),
            ),
        )
    } else if contains_text(text, "://"@) {
        None
    } else {
        Some(
            SourceView::Local(
                located(
                    path_named(text),
                    is_absolute_path(path_named(text)),
                    parent_path(markdown_path),
                ),
            ),
        )
    }
}

/// Where an image comes from, given its source as the document at `markdown_path` names it.
/// `system_drive` is the drive of `file://` addresses that name none, where paths have drives.
pub fn resolve_image_source(
    markdown_path: &PathBuf,
    src: &str,
    system_drive: Option<&str>,
) -> (source: Option<ResolvedImageSource>)
    ensures
        source_view(source) == resolved_source(*markdown_path, src@, text_view(system_drive)),
{
    let text = trim(src);
    if text.as_str().is_empty() {
        return None;
    }
    let chars = chars_of(text.as_str());
    if starts_with(&chars, "http://") || starts_with(&chars, "https://") {
        return Some(ResolvedImageSource::Remote(text));
    }
    if starts_with(&chars, "file://") {
        proof {
            reveal_strlit("file://");
        }
        let rest = string_of(&chars, 7, chars.len());
        assert(rest@ == text@.skip("file://"@.len() as int));
        let path = local_file_path(rest.as_str(), system_drive);
        return Some(ResolvedImageSource::Local(path_from(path.as_str())));
    }
    if contains(&chars, "://") {
        return None;
    }
    let path = path_from(text.as_str());
    let absolute = is_absolute(&path);
    Some(ResolvedImageSource::Local(locate(path, absolute, parent(markdown_path))))
}

} // verus!
