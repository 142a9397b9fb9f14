//! Rosters as text: the lines of a list of companies, and the frame of the
//! file that the enriched records are written to.

use crate::company::{Company, CompanyView};
use crate::contact::opt_text;
use crate::pattern::{capture_group, regex_group};
use crate::text::{chars_of, trim, trimmed};
use vstd::prelude::*;
use vstd::string::*;

verus! {

/// What parts rank and name in a line.
pub const FIELD_SEPARATOR: &'static str = "\t";

/// The regular expression whose whole match is the name of a firm at the
/// head of a line's rest: as little as may be, up to white space that is
/// followed by something other than digits.
pub const FIRM_NAME_PATTERN: &'static str = "(.+?)\\s\\D+";

/// What opens the file of records.
pub const ARRAY_OPENING: &'static str = "[\n";

/// What stands between two records.
pub const RECORD_SEPARATOR: &'static str = ",\n";

/// What closes the file of records.
pub const ARRAY_CLOSING: &'static str = "\n]\n";

/// The first position at or after `from` that holds `c`, or the length of
/// `s` if none does.
pub open spec fn first_index(s: Seq<char>, c: char, from: int) -> int
    decreases s.len() - from,
{
    if 0 <= from < s.len() && s[from] != c {
        first_index(s, c, from + 1)
    } else {
        from
    }
}

/// What stands before and after the first tab of `line`; `None` where the
/// line holds no tab.
pub open spec fn fields_of(line: Seq<char>) -> Option<(Seq<char>, Seq<char>)> {
    let at = first_index(line, '\t', 0);
    if 0 <= at < line.len() {
        Some((line.subrange(0, at), line.subrange(at + 1, line.len() as int)))
    } else {
        None
    }
}

/// The company of which only `rank` and `name` are known.
pub open spec fn plain_company(rank: Seq<char>, name: Seq<char>) -> CompanyView {
    CompanyView { rank, name, visited: None, personnel: None, website: None }
}

/// The company that a line of rank, tab and name lists.
pub open spec fn listed_company(line: Seq<char>) -> Option<CompanyView> {
    match fields_of(line) {
        Some((rank, name)) => Some(plain_company(rank, name)),
        None => None,
    }
}

/// The firm of rank `rank`, given what the search for
/// [`FIRM_NAME_PATTERN`] found in the rest of its line.
pub open spec fn firm_from(rank: Seq<char>, found: Option<Seq<char>>) -> Option<CompanyView> {
    match found {
        Some(name) => Some(plain_company(rank, trimmed(name))),
        None => None,
    }
}

/// The firm that a line of a raw list names.
pub open spec fn cleaned_company(line: Seq<char>) -> Option<CompanyView> {
    match fields_of(line) {
        Some((rank, rest)) => firm_from(rank, regex_group(FIRM_NAME_PATTERN@, rest, 0)),
        None => None,
    }
}

/// The line that lists `company`: rank, tab, name.
pub open spec fn line_of(company: CompanyView) -> Seq<char> {
    company.rank + FIELD_SEPARATOR@ + company.name
}

/// What is written for the record `record` when `written` records stand in
/// the file already: the record, after a separator unless it is the first.
pub open spec fn record_text(written: nat, record: Seq<char>) -> Seq<char> {
    if written == 0 {
        record
    } else {
        RECORD_SEPARATOR@ + record
    }
}

/// The file that holds the first `upto` of `records`, before it is closed.
pub open spec fn array_text(records: Seq<Seq<char>>, upto: int) -> Seq<char>
    decreases upto,
{
    if upto <= 0 {
        ARRAY_OPENING@
    } else {
        array_text(records, upto - 1) + record_text((upto - 1) as nat, records[upto - 1])
    }
}

/// The view of an optional company.
pub open spec fn opt_company(company: Option<Company>) -> Option<CompanyView> {
    match company {
        Some(c) => Some(c@),
        None => None,
    }
}

/// What stands before and after the first tab of `line`.
pub fn split_line(line: &str) -> (r: Option<(String, String)>)
    ensures
        match r {
            Some(fields) => fields_of(line@) == Some((fields.0@, fields.1@)),
            None => fields_of(line@) is None,
        },
{
    let v = chars_of(line);
    let mut at: usize = 0;
    while at < v.len() && v[at] != '\t'
        invariant
            at <= v.len(),
            first_index(v@, '\t', 0) == first_index(v@, '\t', at as int),
        decreases v.len() - at,
    {
        at += 1;
    }
    if at < v.len() {
        let head = line.substring_char(0, at).to_owned();
        let rest = line.substring_char(at + 1, v.len()).to_owned();
        Some((head, rest))
    } else {
        None
    }
}

/// The company that a line of rank, tab and name lists; `None` for a line
/// without a tab.
pub fn company_from_line(line: &str) -> (r: Option<Company>)
    ensures
        opt_company(r) == listed_company(line@),
{
    match split_line(line) {
        Some((rank, name)) => Some(Company::new(rank, name)),
        None => None,
    }
}

/// The firm of rank `rank`, given what the search for
/// [`FIRM_NAME_PATTERN`] found in the rest of its line.
pub fn firm_from_capture(rank: String, found: Option<String>) -> (r: Option<Company>)
    ensures
        opt_company(r) == firm_from(rank@, opt_text(found)),
{
    match found {
        Some(name) => Some(Company::new(rank, trim(name.as_str()))),
        None => None,
    }
}

/// The firm that a line of a raw list names: its rank is what stands before
/// the first tab, its name what the search finds behind it. `None` for a
/// line without a tab, and where the search finds nothing.
pub fn clean_line(line: &str) -> (r: Option<Company>)
    ensures
        opt_company(r) == cleaned_company(line@),
{
    match split_line(line) {
        Some((rank, rest)) => {
            let found = capture_group(FIRM_NAME_PATTERN, rest.as_str(), 0);
            firm_from_capture(rank, found)
        },
        None => None,
    }
}

/// The line that lists `company`.
pub fn roster_line(company: &Company) -> (line: String)
    ensures
        line@ == line_of(company@),
{
    let mut line = company.rank.clone();
    line.append(FIELD_SEPARATOR);
    line.append(company.name.as_str());
    line
}

/// What is written for the record `record` when `written` records stand in
/// the file already.
pub fn record_piece(written: usize, record: &str) -> (piece: String)
    ensures
        piece@ == record_text(written as nat, record@),
{
    if written == 0 {
        record.to_owned()
    } else {
        let mut piece = RECORD_SEPARATOR.to_owned();
        piece.append(record);
        piece
    }
}

/// The file that holds `records`, closed.
pub fn array_of(records: &Vec<String>) -> (file: String)
    ensures
        file@ == array_text(crate::text::texts(records@), records.len() as int) + ARRAY_CLOSING@,
{
    let mut file = ARRAY_OPENING.to_owned();
    let mut i: usize = 0;
    while i < records.len()
        invariant
            i <= records.len(),
            file@ == array_text(crate::text::texts(records@), i as int),
        decreases records.len() - i,
    {
        assert(crate::text::texts(records@)[i as int] == records@[i as int]@);
        let piece = record_piece(i, records[i].as_str());
        file.append(piece.as_str());
        i += 1;
    }
    file.append(ARRAY_CLOSING);
    file
}

} // verus!
