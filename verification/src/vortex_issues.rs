//! Tasks that were imported from a Vortex issue: the values of the tracker, and how a task's
//! description tells which issue it came from.

use crate::issue_import::{
    import_text, imported_name, lemma_imported_name_read_back, read_imported_name, write_import,
};
use crate::text::{
    after_last_index_of, begins_with, find_after_last_char, find_char, first_index_of,
    starts_with, trim, trimmed,
};
use vstd::prelude::*;

verus! {

/// A user of the tracker.
#[derive(Clone, Debug, PartialEq, Eq)]
pub struct VortexUser {
    pub id: String,
    pub name: String,
    pub email: String,
    pub avatar_url: Option<String>,
}

/// A file attached to an issue.
#[derive(Clone, Debug, PartialEq, Eq)]
pub struct VortexAttachment {
    pub id: String,
    pub filename: String,
    pub download_url: Option<String>,
    pub mime_type: Option<String>,
    pub is_image: bool,
}

/// A comment on an issue.
#[derive(Clone, Debug, PartialEq, Eq)]
pub struct VortexComment {
    pub id: String,
    pub issue_id: String,
    pub user_id: String,
    pub content: String,
    pub created_at: String,
}

/// Which issues to list.
#[derive(Clone, Debug, PartialEq, Eq)]
pub struct ListVortexIssuesParams {
    pub status: Option<String>,
    pub priority: Option<String>,
    pub labels: Option<String>,
    pub page: Option<i32>,
    pub limit: Option<i32>,
}

impl Default for ListVortexIssuesParams {
    /// The first five open issues.
    fn default() -> (r: Self)
        ensures
            r.status.deep_view() == Some("Open"@),
            r.priority is None,
            r.labels is None,
            r.page == Some(1i32),
            r.limit == Some(5i32),
    {
        ListVortexIssuesParams {
            status: Some(String::from_str("Open")),
            priority: None,
            labels: None,
            page: Some(1),
            limit: Some(5),
        }
    }
}

/// How the description of an imported task begins.
pub open spec fn import_marker() -> Seq<char> {
    "Imported from Vortex Issue #"@
}

/// The description is that of a task imported from a Vortex issue.
pub open spec fn is_imported_description(description: Seq<char>) -> bool {
    begins_with(description, import_marker())
}

/// Tells whether the description is that of a task imported from a Vortex issue.
pub fn is_vortex_imported_task(description: &str) -> (r: bool)
    ensures
        r == is_imported_description(description@),
{
    starts_with(description, "Imported from Vortex Issue #")
}

/// The second line of `text`: what stands between the first and the second line break,
/// without a carriage return at its end. `None` where there is no first line break or
/// nothing behind it.
pub open spec fn second_line(text: Seq<char>) -> Option<Seq<char>> {
    let begin = first_index_of(text, '\n', 0) + 1;
    if begin >= text.len() {
        None
    } else {
        let end = first_index_of(text, '\n', begin);
        let line = text.subrange(begin, end);
        if line.len() > 0 && line.last() == '\r' {
            Some(line.drop_last())
        } else {
            Some(line)
        }
    }
}

/// The id that an issue link ends with: what stands behind the last `/` of the link and
/// before the first `?` of that part, without white space at its ends.
pub open spec fn link_issue_id(link: Seq<char>) -> Seq<char> {
    let tail = link.skip(after_last_index_of(link, '/', link.len() as int));
    trimmed(tail.take(first_index_of(tail, '?', 0)))
}

/// The id of the Vortex issue that a task with this description was imported from.
pub open spec fn vortex_issue_id(description: Seq<char>) -> Option<Seq<char>> {
    if !is_imported_description(description) {
        None
    } else {
        match second_line(description) {
            None => None,
            Some(link) => if link_issue_id(link).len() > 0 {
                Some(link_issue_id(link))
            } else {
                None
            },
        }
    }
}

/// Reads the id of the Vortex issue from the description of an imported task: the id is the
/// last part of the issue link, which is the second line of the description. `None` where the
/// task was not imported, where there is no second line, or where the link ends without an id.
pub fn extract_vortex_issue_id_from_description(description: &str) -> (r: Option<String>)
    ensures
        r.deep_view() == vortex_issue_id(description@),
{
    if !is_vortex_imported_task(description) {
        return None;
    }
    let n = description.unicode_len();
    let first_break = find_char(description, '\n', 0);
    if first_break >= n || first_break + 1 >= n {
        return None;
    }
    let begin = first_break + 1;
    let mut end = find_char(description, '\n', begin);
    let ghost whole = description@.subrange(begin as int, end as int);
    if end > begin && description.get_char(end - 1) == '\r' {
        assert(whole.last() == '\r');
        assert(whole.drop_last() =~= description@.subrange(begin as int, end - 1));
        end = end - 1;
    }
    let link = description.substring_char(begin, end);
    assert(second_line(description@) == Some(link@));
    let tail_begin = find_after_last_char(link, '/');
    let tail = link.substring_char(tail_begin, link.unicode_len());
    assert(tail@ =~= link@.skip(tail_begin as int));
    let id_end = find_char(tail, '?', 0);
    let id = trim(tail.substring_char(0, id_end));
    assert(tail@.subrange(0, id_end as int) =~= tail@.take(id_end as int));
    if id.as_str().unicode_len() > 0 {
        Some(id)
    } else {
        None
    }
}

/// What the tracker serves its attachments from.
pub open spec fn api_base() -> Seq<char> {
    "https://api.vortextask.com"@
}

/// The full address of an attachment: the address given where it begins with `http`, else
/// the address of the tracker with the one given behind it.
pub open spec fn attachment_address(download_url: Seq<char>) -> Seq<char> {
    if begins_with(download_url, "http"@) {
        download_url
    } else {
        api_base() + download_url
    }
}

impl VortexAttachment {
    /// The address to fetch the attachment from, for an image that has one; nothing else is
    /// imported.
    pub fn importable_url(&self) -> (r: Option<String>)
        ensures
            r.deep_view() == (if self.is_image {
                self.download_url.deep_view()
            } else {
                None
            }),
    {
        if !self.is_image {
            return None;
        }
        match &self.download_url {
            Some(url) => Some(url.clone()),
            None => None,
        }
    }

    /// The full address of the attachment at `download_url`.
    pub fn full_address(download_url: &str) -> (r: String)
        ensures
            r@ == attachment_address(download_url@),
    {
        if starts_with(download_url, "http") {
            String::from_str(download_url)
        } else {
            String::from_str("https://api.vortextask.com").concat(download_url)
        }
    }
}

/// An attachment that was stored as an image of the task.
#[derive(Clone, Debug, PartialEq, Eq)]
pub struct ImportedImage {
    pub id: u128,
    pub file_path: String,
    pub original_name: String,
}

/// The mathematical value of an [`ImportedImage`].
pub struct ImportedImageView {
    pub id: u128,
    pub file_path: Seq<char>,
    pub original_name: Seq<char>,
}

impl View for ImportedImage {
    type V = ImportedImageView;

    open spec fn view(&self) -> ImportedImageView {
        ImportedImageView {
            id: self.id,
            file_path: self.file_path@,
            original_name: self.original_name@,
        }
    }
}

impl DeepView for ImportedImage {
    type V = ImportedImageView;

    open spec fn deep_view(&self) -> ImportedImageView {
        self@
    }
}

/// One image in Markdown: its name in square brackets, its place in round ones.
pub open spec fn image_line(image: ImportedImageView) -> Seq<char> {
    "!["@ + image.original_name + "]("@ + image.file_path + ")"@
}

/// The images in Markdown, one to a paragraph.
pub open spec fn image_lines(images: Seq<ImportedImageView>) -> Seq<char>
    decreases images.len(),
{
    if images.len() == 0 {
        Seq::empty()
    } else if images.len() == 1 {
        image_line(images[0])
    } else {
        image_lines(images.drop_last()) + "\n\n"@ + image_line(images.last())
    }
}

/// What the description of an imported issue says of its images: nothing where there is
/// none, else a heading and the images.
pub open spec fn attachments_text(images: Seq<ImportedImageView>) -> Seq<char> {
    if images.len() == 0 {
        Seq::empty()
    } else {
        "\n\n## Attachments\n\n"@ + image_lines(images)
    }
}

/// Writes what the description of an imported issue says of its images.
pub fn attachments_markdown(images: &Vec<ImportedImage>) -> (r: String)
    ensures
        r@ == attachments_text(images.deep_view()),
{
    let mut out = String::new();
    if images.len() == 0 {
        return out;
    }
    out.append("\n\n## Attachments\n\n");
    let ghost heading = out@;
    let mut i: usize = 0;
    assert(images.deep_view().take(0) =~= Seq::<ImportedImageView>::empty());
    while i < images.len()
        invariant
            i <= images.len(),
            heading == "\n\n## Attachments\n\n"@,
            out@ == heading + image_lines(images.deep_view().take(i as int)),
        decreases images.len() - i,
    {
        let ghost before = images.deep_view().take(i as int);
        let ghost grown = images.deep_view().take(i + 1);
        assert(grown.drop_last() =~= before);
        assert(grown.last() == images[i as int]@);
        if i > 0 {
            out.append("\n\n");
        }
        out.append("![");
        out.append(images[i].original_name.as_str());
        out.append("](");
        out.append(images[i].file_path.as_str());
        out.append(")");
        assert(out@ =~= heading + image_lines(grown)) by {
            if i == 0 {
                assert(grown[0] == images[i as int]@);
                assert(image_lines(before) =~= Seq::<char>::empty());
            }
        }
        i += 1;
    }
    assert(images.deep_view().take(i as int) =~= images.deep_view());
    out
}

/// The page of the issue `issue_id`.
pub open spec fn issue_page(issue_id: Seq<char>) -> Seq<char> {
    "https://vortextask.com/issues/"@ + issue_id
}

/// Writes the description of a task imported from the Vortex issue with the key `key` and
/// the id `issue_id`: the marker and the key, the page of the issue, and behind an empty line
/// the text of the issue and what is said of its images.
pub fn vortex_import_description(
    key: &str,
    issue_id: &str,
    body: &str,
    images: &Vec<ImportedImage>,
) -> (r: String)
    ensures
        r@ == import_text(
            import_marker(),
            key@,
            issue_page(issue_id@),
            body@ + attachments_text(images.deep_view()),
        ),
{
    let page = String::from_str("https://vortextask.com/issues/").concat(issue_id);
    let text = String::from_str(body).concat(attachments_markdown(images).as_str());
    write_import("Imported from Vortex Issue #", key, page.as_str(), text.as_str())
}

/// Reads the key of the Vortex issue that a task with this description was imported from:
/// what stands behind the marker on the first line.
pub fn imported_vortex_issue_key(description: &str) -> (r: Option<String>)
    ensures
        r.deep_view() == imported_name(description@, import_marker()),
{
    read_imported_name(description, "Imported from Vortex Issue #")
}

/// An imported Vortex issue is known again by its key.
///
/// Let the key stand on one line. Then the key read from the description that was written
/// for the issue is that key: a second import finds the task and leaves the issue alone.
pub proof fn lemma_vortex_issue_known_again(
    key: Seq<char>,
    issue_id: Seq<char>,
    body: Seq<char>,
)
    requires
        crate::issue_import::fits_one_line(key),
    ensures
        imported_name(import_text(import_marker(), key, issue_page(issue_id), body), import_marker())
            == Some(key),
{
    reveal_strlit("Imported from Vortex Issue #");
    lemma_imported_name_read_back(import_marker(), key, issue_page(issue_id), body);
}

} // verus!
