//! Paging long output: the page size chosen for a terminal, the split of
//! the output into lines, and the decisions of the pager loop (which lines
//! a page shows, and what a key press does). Reading keys and writing to
//! the terminal are left to the caller.

use vstd::prelude::*;

use crate::text::string_from_chars;

verus! {

/// The lines per page for a terminal that reports `rows`: a terminal that
/// claims more than 100 rows gets 40 (such sizes are usually wrong); one of
/// more than 10 rows keeps 5 rows free; a smaller one uses all its rows.
pub open spec fn page_size(rows: u16) -> nat {
    if rows > 100 {
        40
    } else if rows > 10 {
        (rows - 5) as nat
    } else {
        rows as nat
    }
}

/// The lines per page for a terminal that reports `rows`.
pub fn lines_per_page(rows: u16) -> (r: usize)
    ensures
        r == page_size(rows),
{
    if rows > 100 {
        40
    } else if rows > 10 {
        (rows - 5) as usize
    } else {
        rows as usize
    }
}

/// Output of `total` lines is shown at once, without paging, when it fits
/// on one page.
pub fn fits_on_one_page(total: usize, per_page: usize) -> (r: bool)
    ensures
        r == (total <= per_page),
{
    total <= per_page
}

/// `l` without one trailing carriage return.
pub open spec fn without_cr(l: Seq<char>) -> Seq<char> {
    if l.len() > 0 && l.last() == '\r' {
        l.drop_last()
    } else {
        l
    }
}

/// Scans `s` for lines: the lines ended by a line feed so far (each
/// without its line ending) and the line being read.
pub open spec fn line_scan(s: Seq<char>) -> (Seq<Seq<char>>, Seq<char>)
    decreases s.len(),
{
    if s.len() == 0 {
        (seq![], seq![])
    } else {
        let prev = line_scan(s.drop_last());
        if s.last() == '\n' {
            (prev.0.push(without_cr(prev.1)), seq![])
        } else {
            (prev.0, prev.1.push(s.last()))
        }
    }
}

/// The lines of `s` as `str::lines` gives them: split at each line feed,
/// a carriage return just before a line feed dropped, and no empty line
/// after a final line feed.
pub open spec fn text_lines(s: Seq<char>) -> Seq<Seq<char>> {
    let scan = line_scan(s);
    if scan.1.len() > 0 {
        scan.0.push(scan.1)
    } else {
        scan.0
    }
}

/// Splits the output into its lines.
pub fn split_lines(content: &str) -> (r: Vec<String>)
    ensures
        crate::models::strings_view(r@) == text_lines(content@),
{
    let s = crate::text::chars_of(content);
    let mut done: Vec<String> = Vec::new();
    let mut cur: Vec<char> = Vec::new();
    let mut i: usize = 0;
    assert(s@.take(0) =~= Seq::<char>::empty());
    while i < s.len()
        invariant
            s@ == content@,
            i <= s@.len(),
            crate::models::strings_view(done@) == line_scan(s@.take(i as int)).0,
            cur@ == line_scan(s@.take(i as int)).1,
        decreases s@.len() - i,
    {
        assert(s@.take(i + 1).drop_last() =~= s@.take(i as int));
        assert(s@.take(i + 1).last() == s@[i as int]);
        let c = s[i];
        if c == '\n' {
            let n = cur.len();
            let line = if n > 0 && cur[n - 1] == '\r' {
                assert(cur@.subrange(0, n - 1) =~= cur@.drop_last());
                string_from_chars(crate::text::chars_between(cur.as_slice(), 0, n - 1).as_slice())
            } else {
                string_from_chars(cur.as_slice())
            };
            done.push(line);
            cur = Vec::new();
        } else {
            cur.push(c);
        }
        i += 1;
        assert(crate::models::strings_view(done@) =~= line_scan(s@.take(i as int)).0);
        assert(cur@ =~= line_scan(s@.take(i as int)).1);
    }
    assert(s@.take(s@.len() as int) =~= s@);
    if cur.len() > 0 {
        done.push(string_from_chars(cur.as_slice()));
    }
    assert(crate::models::strings_view(done@) =~= text_lines(content@));
    done
}

/// The end (exclusive) of the page that starts at line `current`.
pub open spec fn page_end(total: nat, per_page: nat, current: nat) -> nat {
    if current + per_page <= total {
        current + per_page
    } else {
        total
    }
}

/// What one page of the pager shows.
pub struct Page {
    /// The first line shown.
    pub start: usize,
    /// The line after the last one shown.
    pub end: usize,
    /// Whether the page reaches the end of the output.
    pub at_end: bool,
    /// How many lines follow the page.
    pub remaining: usize,
}

/// The page that starts at line `current` of `total` lines.
pub fn page_at(total: usize, per_page: usize, current: usize) -> (r: Page)
    requires
        current <= total,
    ensures
        r.start == current,
        r.end == page_end(total as nat, per_page as nat, current as nat),
        r.at_end == (r.end >= total),
        r.remaining == total - r.end,
{
    let end = if per_page <= total - current {
        current + per_page
    } else {
        total
    };
    Page { start: current, end, at_end: end >= total, remaining: total - end }
}

/// A key pressed at the pager prompt.
pub enum PagerKey {
    /// `q`, `Q` or Escape.
    Quit,
    /// Space or Enter.
    Advance,
    /// Any other key.
    Other,
}

/// What the pager does next.
pub enum PagerAction {
    /// Leave the pager.
    Exit,
    /// Show the page that starts at this line.
    ShowFrom(usize),
}

/// The pager's decision after a key press on the page that starts at line
/// `current`: quit keys leave; Space or Enter moves to the next page, or
/// leaves on the last one; any other key shows the same page again.
pub fn pager_step(total: usize, per_page: usize, current: usize, key: PagerKey) -> (r: PagerAction)
    requires
        current <= total,
    ensures
        key is Quit ==> r is Exit,
        key is Advance ==> (if page_end(total as nat, per_page as nat, current as nat) >= total {
            r is Exit
        } else {
            r == PagerAction::ShowFrom(page_end(total as nat, per_page as nat, current as nat) as usize)
        }),
        key is Other ==> r == PagerAction::ShowFrom(current),
{
    let page = page_at(total, per_page, current);
    match key {
        PagerKey::Quit => PagerAction::Exit,
        PagerKey::Advance => if page.at_end {
            PagerAction::Exit
        } else {
            PagerAction::ShowFrom(page.end)
        },
        PagerKey::Other => PagerAction::ShowFrom(current),
    }
}

/// Advancing from a page that is not the last moves forward by exactly one
/// page, to the line right after the page shown, and never past the end;
/// pages are thus shown back to back and each line once.
pub proof fn law_advance_moves_one_page(total: nat, per_page: nat, current: nat)
    requires
        current <= total,
        page_end(total, per_page, current) < total,
    ensures
        page_end(total, per_page, current) == current + per_page,
        page_end(total, per_page, current) <= total,
        per_page > 0 ==> current < page_end(total, per_page, current),
{
}

/// With at least one line per page, the pager reaches the last page after
/// at most `total` presses of Space or Enter.
pub proof fn law_pager_reaches_end(total: nat, per_page: nat, current: nat)
    requires
        per_page > 0,
        current <= total,
    ensures
        page_end(total, per_page, current) >= total || total - page_end(total, per_page, current)
            < total - current,
{
}

} // verus!
