//! Readings and the title out of a station's hourly-data page.

use vstd::prelude::*;
use crate::reading::{parse_reading, reading_of_text};

verus! {

/// Why a page gives no readings or no title.
#[derive(Clone, Copy, Debug, PartialEq, Eq)]
pub enum ExtractError {
    /// The row selector was not accepted.
    SelectorRejected,
    /// A table row that should be there is not.
    MissingRow,
    /// A row holds fewer cells than the one to read.
    MissingCell,
}

/// The text nodes of each element of the HTML document `body` that the CSS
/// selector `css` matches, in document order; `None` where `css` is not a
/// valid selector.
pub uninterp spec fn selected_texts(body: Seq<char>, css: Seq<char>) -> Option<Seq<Seq<Seq<char>>>>;

/// Relies on scraper's `Selector::parse`, `Html::parse_document`,
/// `Html::select` and `ElementRef::text`: the text nodes of the matching
/// elements, in document order, depend on the two texts alone.
#[verifier::external_body]
fn select_texts(body: &str, css: &str) -> (r: Option<Vec<Vec<String>>>)
    ensures
        match r {
            Some(rows) => selected_texts(body@, css@) == Some(rows.deep_view()),
            None => selected_texts(body@, css@) is None,
        },
{
    let selector = scraper::Selector::parse(css).ok()?;
    let document = scraper::Html::parse_document(body);
    let mut rows = Vec::new();
    for element in document.select(&selector) {
        rows.push(element.text().map(String::from).collect());
    }
    Some(rows)
}

/// Rows of the hourly table.
pub open spec fn pressure_selector() -> Seq<char> {
    "#tbl_list > tbody > tr"@
}

/// Rows of the title table.
pub open spec fn title_selector() -> Seq<char> {
    "#tbl_title > tbody > tr"@
}

/// Leading rows of the hourly table that hold no reading.
pub const SKIP_ROWS: usize = 2;

/// The cell of an hourly row that holds the pressure.
pub const PRESSURE_COLUMN: usize = 9;

/// The row of the title table that holds the title.
pub const TITLE_ROW: usize = 1;

/// The cell of that row that holds the title.
pub const TITLE_COLUMN: usize = 1;

/// `head` in front of the readings of a result.
pub open spec fn prepend(head: Seq<i32>, r: Result<Seq<i32>, ExtractError>) -> Result<Seq<i32>, ExtractError> {
    match r {
        Ok(t) => Ok(head + t),
        Err(e) => Err(e),
    }
}

/// Readings of the rows from `i` on: each row's pressure cell, up to the
/// first one that is no reading; a row without that cell is an error.
pub open spec fn readings_from(rows: Seq<Seq<Seq<char>>>, i: int) -> Result<Seq<i32>, ExtractError>
    decreases rows.len() - i,
{
    if i < 0 || i >= rows.len() {
        Ok(Seq::empty())
    } else if rows[i].len() <= PRESSURE_COLUMN {
        Err(ExtractError::MissingCell)
    } else {
        match reading_of_text(rows[i][PRESSURE_COLUMN as int]) {
            None => Ok(Seq::empty()),
            Some(v) => prepend(seq![v], readings_from(rows, i + 1)),
        }
    }
}

/// Readings of the hourly table, past its leading rows.
pub open spec fn readings_of_rows(rows: Seq<Seq<Seq<char>>>) -> Result<Seq<i32>, ExtractError> {
    readings_from(rows, SKIP_ROWS as int)
}

/// The title in the title table's rows.
pub open spec fn title_of_rows(rows: Seq<Seq<Seq<char>>>) -> Result<Seq<char>, ExtractError> {
    if rows.len() <= TITLE_ROW {
        Err(ExtractError::MissingRow)
    } else if rows[TITLE_ROW as int].len() <= TITLE_COLUMN {
        Err(ExtractError::MissingCell)
    } else {
        Ok(rows[TITLE_ROW as int][TITLE_COLUMN as int])
    }
}

/// The readings of an hourly table given as the texts of its rows: past the
/// leading rows, each row's pressure cell, up to the first that is no reading.
pub fn readings_from_rows(rows: &Vec<Vec<String>>) -> (r: Result<Vec<i32>, ExtractError>)
    ensures
        match readings_of_rows(rows.deep_view()) {
            Ok(t) => r is Ok && r->Ok_0@ == t,
            Err(e) => r == Err::<Vec<i32>, ExtractError>(e),
        },
{
    let ghost rv = rows.deep_view();
    let mut out: Vec<i32> = Vec::new();
    let mut i: usize = SKIP_ROWS;
    while i < rows.len()
        invariant
            rv == rows.deep_view(),
            SKIP_ROWS <= i,
            readings_of_rows(rv) == prepend(out@, readings_from(rv, i as int)),
        decreases rows@.len() - i,
    {
        let row = &rows[i];
        if row.len() <= PRESSURE_COLUMN {
            return Err(ExtractError::MissingCell);
        }
        assert(rv[i as int][PRESSURE_COLUMN as int] == row@[PRESSURE_COLUMN as int]@);
        match parse_reading(row[PRESSURE_COLUMN].as_str()) {
            Some(v) => {
                proof {
                    let rest = readings_from(rv, i + 1);
                    match rest {
                        Ok(t) => {
                            assert(out@ + (seq![v] + t) =~= out@.push(v) + t);
                        },
                        Err(e) => {},
                    }
                }
                out.push(v);
            },
            None => {
                assert(out@ + Seq::<i32>::empty() =~= out@);
                return Ok(out);
            },
        }
        i = i + 1;
    }
    assert(out@ + Seq::<i32>::empty() =~= out@);
    Ok(out)
}

/// The title in the texts of the title table's rows: a fixed cell of its
/// second row.
pub fn title_from_rows(rows: &Vec<Vec<String>>) -> (r: Result<String, ExtractError>)
    ensures
        match title_of_rows(rows.deep_view()) {
            Ok(t) => r is Ok && r->Ok_0@ == t,
            Err(e) => r == Err::<String, ExtractError>(e),
        },
{
    if rows.len() <= TITLE_ROW {
        return Err(ExtractError::MissingRow);
    }
    let row = &rows[TITLE_ROW];
    if row.len() <= TITLE_COLUMN {
        return Err(ExtractError::MissingCell);
    }
    Ok(row[TITLE_COLUMN].clone())
}

/// Appends the readings of an hourly-data page to `data`.
///
/// On an error `data` is left as it was.
pub fn scrape_pressure_data(body: &str, data: &mut Vec<i32>) -> (r: Result<(), ExtractError>)
    ensures
        match selected_texts(body@, pressure_selector()) {
            None => r == Err::<(), ExtractError>(ExtractError::SelectorRejected) && final(data)@ == old(data)@,
            Some(rows) => match readings_of_rows(rows) {
                Ok(t) => r is Ok && final(data)@ == old(data)@ + t,
                Err(e) => r == Err::<(), ExtractError>(e) && final(data)@ == old(data)@,
            },
        },
{
    proof { reveal_strlit("#tbl_list > tbody > tr"); }
    match select_texts(body, "#tbl_list > tbody > tr") {
        None => Err(ExtractError::SelectorRejected),
        Some(rows) => match readings_from_rows(&rows) {
            Ok(found) => {
                let mut found = found;
                data.append(&mut found);
                Ok(())
            },
            Err(e) => Err(e),
        },
    }
}

/// The title of a station page: the date and time of its data.
pub fn scrape_date_time(body: &str) -> (r: Result<String, ExtractError>)
    ensures
        match selected_texts(body@, title_selector()) {
            None => r == Err::<String, ExtractError>(ExtractError::SelectorRejected),
            Some(rows) => match title_of_rows(rows) {
                Ok(t) => r is Ok && r->Ok_0@ == t,
                Err(e) => r == Err::<String, ExtractError>(e),
            },
        },
{
    proof { reveal_strlit("#tbl_title > tbody > tr"); }
    match select_texts(body, "#tbl_title > tbody > tr") {
        None => Err(ExtractError::SelectorRejected),
        Some(rows) => title_from_rows(&rows),
    }
}

} // verus!
