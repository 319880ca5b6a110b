//! Issues imported as tasks: how the description of such a task is written, and how a later
//! import tells from it that the issue is there already.

use crate::decimal::{
    decimal_string, decimal_text, lemma_decimal_round_trip, parse_i64, parsed_i64,
};
use crate::path::push_char;
use crate::text::{begins_with, find_char, first_index_of, starts_with};
use vstd::prelude::*;

verus! {

/// How the description of a task imported from GitHub begins.
pub open spec fn github_marker() -> Seq<char> {
    "Imported from GitHub Issue #"@
}

/// How the description of a task imported from GitLab begins.
pub open spec fn gitlab_marker() -> Seq<char> {
    "Imported from GitLab Issue #"@
}

/// The first line of `text`: what stands before the first line break, without the carriage
/// return of a line that ends in one and a line break.
pub open spec fn first_line(text: Seq<char>) -> Seq<char> {
    let end = first_index_of(text, '\n', 0);
    let line = text.take(end);
    if end < text.len() && line.len() > 0 && line.last() == '\r' {
        line.drop_last()
    } else {
        line
    }
}

/// The description of an imported issue: the marker and what names the issue on the first
/// line, the address of the issue on the second, and the text of the issue behind an empty
/// line.
pub open spec fn import_text(
    marker: Seq<char>,
    name: Seq<char>,
    address: Seq<char>,
    body: Seq<char>,
) -> Seq<char> {
    marker + name + seq!['\n'] + address + seq!['\n', '\n'] + body
}

/// What names the issue in the description of a task imported under `marker`, if the task
/// was imported: what stands behind the marker on the first line.
pub open spec fn imported_name(description: Seq<char>, marker: Seq<char>) -> Option<Seq<char>> {
    if begins_with(description, marker) && begins_with(first_line(description), marker) {
        Some(first_line(description).skip(marker.len() as int))
    } else {
        None
    }
}

/// The number of the issue that a task with this description was imported from under
/// `marker`.
pub open spec fn imported_number(description: Seq<char>, marker: Seq<char>) -> Option<i64> {
    match imported_name(description, marker) {
        Some(name) => parsed_i64(name),
        None => None,
    }
}

/// Writes the description of an imported issue.
pub fn write_import(marker: &str, name: &str, address: &str, body: &str) -> (r: String)
    ensures
        r@ == import_text(marker@, name@, address@, body@),
{
    let mut out = String::from_str(marker);
    out.append(name);
    push_char(&mut out, '\n');
    out.append(address);
    push_char(&mut out, '\n');
    push_char(&mut out, '\n');
    out.append(body);
    assert(out@ =~= import_text(marker@, name@, address@, body@));
    out
}

/// Reads what names the issue from the description of a task imported under `marker`.
pub fn read_imported_name(description: &str, marker: &str) -> (r: Option<String>)
    ensures
        r.deep_view() == imported_name(description@, marker@),
{
    if !starts_with(description, marker) {
        return None;
    }
    let n = description.unicode_len();
    let mut end = find_char(description, '\n', 0);
    assert(description@.subrange(0, end as int) =~= description@.take(end as int));
    if end < n && end > 0 && description.get_char(end - 1) == '\r' {
        assert(description@.take(end as int).drop_last() =~= description@.subrange(0, end - 1));
        end = end - 1;
    }
    let line = description.substring_char(0, end);
    assert(line@ == first_line(description@));
    if !starts_with(line, marker) {
        return None;
    }
    let m = marker.unicode_len();
    let name = line.substring_char(m, end);
    assert(name@ =~= line@.skip(m as int));
    Some(String::from_str(name))
}

/// The text of an issue that has none is empty.
fn text_of(body: Option<&str>) -> (r: &str)
    ensures
        r@ == (match body {
            Some(text) => text@,
            None => Seq::<char>::empty(),
        }),
{
    match body {
        Some(text) => text,
        None => {
            proof {
                reveal_strlit("");
            }
            assert(""@ =~= Seq::<char>::empty());
            ""
        },
    }
}

/// Writes the description of a task imported from the GitHub issue `number`.
pub fn github_import_description(number: i64, html_url: &str, body: Option<&str>) -> (r: String)
    ensures
        r@ == import_text(
            github_marker(),
            decimal_text(number as int),
            html_url@,
            match body {
                Some(text) => text@,
                None => Seq::<char>::empty(),
            },
        ),
{
    write_import(
        "Imported from GitHub Issue #",
        decimal_string(number).as_str(),
        html_url,
        text_of(body),
    )
}

/// Reads the number of the GitHub issue that a task with this description was imported from.
pub fn imported_github_issue(description: &str) -> (r: Option<i64>)
    ensures
        r == imported_number(description@, github_marker()),
{
    match read_imported_name(description, "Imported from GitHub Issue #") {
        Some(name) => parse_i64(name.as_str()),
        None => None,
    }
}

/// Writes the description of a task imported from the GitLab issue `iid`.
pub fn gitlab_import_description(iid: i64, web_url: &str, body: Option<&str>) -> (r: String)
    ensures
        r@ == import_text(
            gitlab_marker(),
            decimal_text(iid as int),
            web_url@,
            match body {
                Some(text) => text@,
                None => Seq::<char>::empty(),
            },
        ),
{
    write_import(
        "Imported from GitLab Issue #",
        decimal_string(iid).as_str(),
        web_url,
        text_of(body),
    )
}

/// Reads the number of the GitLab issue that a task with this description was imported from.
pub fn imported_gitlab_issue(description: &str) -> (r: Option<i64>)
    ensures
        r == imported_number(description@, gitlab_marker()),
{
    match read_imported_name(description, "Imported from GitLab Issue #") {
        Some(name) => parse_i64(name.as_str()),
        None => None,
    }
}

/// Tells whether an issue has still to be imported: its number is not among those of the
/// tasks that are there.
pub fn is_new_issue(imported: &Vec<i64>, number: i64) -> (r: bool)
    ensures
        r == !imported@.contains(number),
{
    let mut i: usize = 0;
    while i < imported.len()
        invariant
            i <= imported.len(),
            forall|j: int| 0 <= j < i ==> imported@[j] != number,
        decreases imported.len() - i,
    {
        if imported[i] == number {
            return false;
        }
        i += 1;
    }
    true
}

/// A name that stands on one line as it is: no line break in it, no carriage return at its
/// end.
pub open spec fn fits_one_line(name: Seq<char>) -> bool {
    &&& forall|i: int| 0 <= i < name.len() ==> name[i] != '\n'
    &&& name.len() > 0 ==> name.last() != '\r'
}

/// A name written into a description is read back from it.
///
/// Let the marker hold no line break and the name stand on one line. Then what names the
/// issue in the description written for it is that name, whatever the address and the text
/// of the issue are.
pub proof fn lemma_imported_name_read_back(
    marker: Seq<char>,
    name: Seq<char>,
    address: Seq<char>,
    body: Seq<char>,
)
    requires
        forall|i: int| 0 <= i < marker.len() ==> marker[i] != '\n',
        marker.len() > 0 ==> marker.last() != '\r',
        fits_one_line(name),
    ensures
        imported_name(import_text(marker, name, address, body), marker) == Some(name),
{
    let text = import_text(marker, name, address, body);
    let head = marker + name;
    let end = head.len() as int;
    lemma_first_break(text, end, 0);
    assert(text.take(end) =~= head);
    assert(text.take(marker.len() as int) =~= marker);
    assert(head.take(marker.len() as int) =~= marker);
    assert(head.skip(marker.len() as int) =~= name);
    if head.len() > 0 {
        if name.len() > 0 {
            assert(head.last() == name.last());
        } else {
            assert(head.last() == marker.last());
        }
    }
}

/// Where the first line break of `text` from `from` on stands at `end`.
pub proof fn lemma_first_break(text: Seq<char>, end: int, from: int)
    requires
        0 <= from <= end < text.len(),
        text[end] == '\n',
        forall|i: int| from <= i < end ==> text[i] != '\n',
    ensures
        first_index_of(text, '\n', from) == end,
    decreases end - from,
{
    if from < end {
        lemma_first_break(text, end, from + 1);
    }
}

/// An imported issue is known again.
///
/// The number read from the description that was written for the issue `number` is
/// `number`: a second import finds the task and leaves the issue alone.
pub proof fn lemma_imported_issue_known_again(number: i64, address: Seq<char>, body: Seq<char>)
    ensures
        imported_number(
            import_text(github_marker(), decimal_text(number as int), address, body),
            github_marker(),
        ) == Some(number),
        imported_number(
            import_text(gitlab_marker(), decimal_text(number as int), address, body),
            gitlab_marker(),
        ) == Some(number),
{
    lemma_decimal_round_trip(number);
    reveal_strlit("Imported from GitHub Issue #");
    reveal_strlit("Imported from GitLab Issue #");
    lemma_imported_name_read_back(github_marker(), decimal_text(number as int), address, body);
    lemma_imported_name_read_back(gitlab_marker(), decimal_text(number as int), address, body);
}

} // verus!
