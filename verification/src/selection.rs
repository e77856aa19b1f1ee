//! Interactive selection of devices from a numbered list.
//!
//! The answer typed at the prompt is read as: nothing or `none` (in any
//! ASCII case) to cancel; `all` (in any ASCII case) or `*` for every
//! device; otherwise white-space-separated words, each a number `k` (the
//! k-th device, counting from 1) or a range `a-b` (devices `a` to `b`).
//! Words that do not fit are reported as warnings and skipped.

use vstd::prelude::*;

use crate::models::{devices_view, Device, DeviceView};
use crate::text::{
    char_vecs_view, chars_between, chars_eq_ignore_ascii_case, chars_of, eq_ignore_ascii_case,
    parse_usize, parsed_usize, split_words, string_from_chars, trim_chars, trimmed, words,
};

verus! {

/// A word of the answer that selects nothing, and why.
pub enum SelectionWarning {
    /// The word holds a `-` but is not of the form `a-b`.
    InvalidRangeFormat(String),
    /// The start of a range is not a number from 1 to the count of devices.
    InvalidRangeStart(String),
    /// The end of a range is not a number from 1 to the count of devices.
    InvalidRangeEnd(String),
    /// A range starts after it ends (start, end).
    RangeStartAfterEnd(usize, usize),
    /// The word is not a number from 1 to the count of devices.
    InvalidSelection(String),
}

/// The abstract value of a [`SelectionWarning`].
pub enum WarningView {
    InvalidRangeFormat(Seq<char>),
    InvalidRangeStart(Seq<char>),
    InvalidRangeEnd(Seq<char>),
    RangeStartAfterEnd(usize, usize),
    InvalidSelection(Seq<char>),
}

impl View for SelectionWarning {
    type V = WarningView;

    open spec fn view(&self) -> WarningView {
        match self {
            SelectionWarning::InvalidRangeFormat(s) => WarningView::InvalidRangeFormat(s@),
            SelectionWarning::InvalidRangeStart(s) => WarningView::InvalidRangeStart(s@),
            SelectionWarning::InvalidRangeEnd(s) => WarningView::InvalidRangeEnd(s@),
            SelectionWarning::RangeStartAfterEnd(a, b) => WarningView::RangeStartAfterEnd(*a, *b),
            SelectionWarning::InvalidSelection(s) => WarningView::InvalidSelection(s@),
        }
    }
}

/// The warnings of a sequence, as their views.
pub open spec fn warnings_view(ws: Seq<SelectionWarning>) -> Seq<WarningView> {
    ws.map_values(|w: SelectionWarning| w@)
}

/// What one word of the answer does: select the positions `lo..=hi`
/// (counting from 0), or give a warning.
pub enum WordOutcome {
    Select(int, int),
    Warn(WarningView),
}

/// Position `d` of `t` holds a `-`.
pub open spec fn dash_at(t: Seq<char>, d: int) -> bool {
    0 <= d < t.len() && t[d] == '-'
}

/// `t` holds a `-`.
pub open spec fn has_dash(t: Seq<char>) -> bool {
    exists|d: int| #[trigger] dash_at(t, d)
}

/// `t` holds exactly one `-`, so that splitting it at `-` gives two parts.
pub open spec fn single_dash(t: Seq<char>) -> bool {
    has_dash(t) && forall|d: int, e: int| #[trigger] dash_at(t, d) && #[trigger] dash_at(t, e) ==> d == e
}

/// The position of a `-` in `t`.
pub open spec fn dash_position(t: Seq<char>) -> int {
    choose|d: int| dash_at(t, d)
}

/// `v` is a number from 1 to `n`.
pub open spec fn counts_device(v: Option<usize>, n: nat) -> bool {
    v is Some && 0 < v->0 && v->0 <= n
}

/// What the word `t` does when there are `n` devices.
pub open spec fn word_outcome(t: Seq<char>, n: nat) -> WordOutcome {
    if has_dash(t) {
        if !single_dash(t) {
            WordOutcome::Warn(WarningView::InvalidRangeFormat(t))
        } else {
            let d = dash_position(t);
            let a = t.take(d);
            let b = t.skip(d + 1);
            let x = parsed_usize(a);
            let y = parsed_usize(b);
            if !counts_device(x, n) {
                WordOutcome::Warn(WarningView::InvalidRangeStart(a))
            } else if !counts_device(y, n) {
                WordOutcome::Warn(WarningView::InvalidRangeEnd(b))
            } else if x->0 > y->0 {
                WordOutcome::Warn(WarningView::RangeStartAfterEnd(x->0, y->0))
            } else {
                WordOutcome::Select(x->0 - 1, y->0 - 1)
            }
        }
    } else {
        let x = parsed_usize(t);
        if counts_device(x, n) {
            WordOutcome::Select(x->0 - 1, x->0 - 1)
        } else {
            WordOutcome::Warn(WarningView::InvalidSelection(t))
        }
    }
}

/// A word without `-` that reads as a number `v` from 1 to the count of
/// devices selects exactly position `v - 1`; one that reads as no such
/// number selects nothing and is reported as an invalid selection.
pub proof fn law_number_word(t: Seq<char>, n: nat, v: usize)
    requires
        forall|d: int| 0 <= d < t.len() ==> t[d] != '-',
    ensures
        parsed_usize(t) == Some(v) && 1 <= v <= n ==> word_outcome(t, n) == WordOutcome::Select(
            v - 1,
            v - 1,
        ) && (forall|i: int| word_selects(t, n, i) <==> i == v - 1),
        !(parsed_usize(t) is Some && 1 <= parsed_usize(t)->0 <= n) ==> word_outcome(t, n)
            == WordOutcome::Warn(WarningView::InvalidSelection(t)) && (forall|i: int| !word_selects(t, n, i)),
{
    assert(!has_dash(t));
}

/// Word `t` selects position `i`.
pub open spec fn word_selects(t: Seq<char>, n: nat, i: int) -> bool {
    match word_outcome(t, n) {
        WordOutcome::Select(lo, hi) => lo <= i <= hi,
        WordOutcome::Warn(_) => false,
    }
}

/// Some word of `ws` selects position `i`.
pub open spec fn selected_by(ws: Seq<Seq<char>>, n: nat, i: int) -> bool {
    exists|k: int| 0 <= k < ws.len() && #[trigger] word_selects(ws[k], n, i)
}

/// The positions below `m` that some word selects, in increasing order.
pub open spec fn selected_positions(ws: Seq<Seq<char>>, n: nat, m: nat) -> Seq<int>
    decreases m,
{
    if m == 0 {
        seq![]
    } else {
        let prev = selected_positions(ws, n, (m - 1) as nat);
        if selected_by(ws, n, m - 1) {
            prev.push(m - 1)
        } else {
            prev
        }
    }
}

/// The warnings of the words `ws`, in their order.
pub open spec fn word_warnings(ws: Seq<Seq<char>>, n: nat) -> Seq<WarningView>
    decreases ws.len(),
{
    if ws.len() == 0 {
        seq![]
    } else {
        let prev = word_warnings(ws.drop_last(), n);
        match word_outcome(ws.last(), n) {
            WordOutcome::Warn(w) => prev.push(w),
            WordOutcome::Select(_, _) => prev,
        }
    }
}

/// The outcome of an answer at the selection prompt.
pub enum Selection {
    /// The answer was empty or `none`: nothing is selected.
    Nothing,
    /// The answer was `all` or `*`: every device is selected.
    Everything,
    /// The positions (counting from 0, increasing, without repetition) that
    /// the words select, and the warnings of the words that select nothing.
    Chosen(Vec<usize>, Vec<SelectionWarning>),
}

/// Positions as mathematical integers.
pub open spec fn positions_view(ix: Seq<usize>) -> Seq<int> {
    ix.map_values(|i: usize| i as int)
}

/// The devices of `ds` at the positions `ix`, in that order.
pub open spec fn devices_at(ix: Seq<int>, ds: Seq<DeviceView>) -> Seq<DeviceView> {
    ix.map_values(|i: int| ds[i])
}

/// The abstract value of a [`Selection`].
pub enum SelectionView {
    Nothing,
    Everything,
    Chosen(Seq<int>, Seq<WarningView>),
}

impl View for Selection {
    type V = SelectionView;

    open spec fn view(&self) -> SelectionView {
        match self {
            Selection::Nothing => SelectionView::Nothing,
            Selection::Everything => SelectionView::Everything,
            Selection::Chosen(ix, ws) => SelectionView::Chosen(positions_view(ix@), warnings_view(ws@)),
        }
    }
}

/// The meaning of the answer `input` when there are `n` devices.
pub open spec fn selection_of(input: Seq<char>, n: nat) -> SelectionView {
    let t = trimmed(input);
    if t.len() == 0 || eq_ignore_ascii_case(t, seq!['n', 'o', 'n', 'e']) {
        SelectionView::Nothing
    } else if eq_ignore_ascii_case(t, seq!['a', 'l', 'l']) || t == seq!['*'] {
        SelectionView::Everything
    } else {
        let ws = words(t);
        SelectionView::Chosen(selected_positions(ws, n, n), word_warnings(ws, n))
    }
}

/// Where the single `-` of a word lies, if the word holds exactly one.
fn dash_scan(t: &[char]) -> (r: (usize, usize))
    ensures
        r.0 == 0 <==> !has_dash(t@),
        r.0 == 1 <==> single_dash(t@),
        r.0 == 1 ==> dash_at(t@, r.1 as int),
{
    let mut count: usize = 0;
    let mut pos: usize = 0;
    let mut i: usize = 0;
    while i < t.len()
        invariant
            i <= t@.len(),
            count <= 2,
            count == 0 ==> forall|d: int| 0 <= d < i ==> !dash_at(t@, d),
            count >= 1 ==> pos < i && dash_at(t@, pos as int),
            count == 1 ==> forall|d: int| 0 <= d < i && dash_at(t@, d) ==> d == pos,
            count == 2 ==> exists|d: int| 0 <= d < i && d != pos && dash_at(t@, d),
        decreases t@.len() - i,
    {
        if t[i] == '-' {
            if count == 0 {
                pos = i;
                count = 1;
            } else {
                assert(dash_at(t@, i as int));
                count = 2;
            }
        }
        i += 1;
    }
    if count == 0 {
        assert(!has_dash(t@));
    } else if count == 1 {
        assert(dash_at(t@, pos as int));
        assert(single_dash(t@));
    } else {
        let ghost d = choose|d: int| 0 <= d < i && d != pos && dash_at(t@, d);
        assert(dash_at(t@, pos as int) && dash_at(t@, d));
        assert(!single_dash(t@));
    }
    (count, pos)
}

/// What a word of the answer does, computed.
enum Outcome {
    Select(usize, usize),
    Warn(SelectionWarning),
}

spec fn outcome_view(o: Outcome) -> WordOutcome {
    match o {
        Outcome::Select(lo, hi) => WordOutcome::Select(lo as int, hi as int),
        Outcome::Warn(w) => WordOutcome::Warn(w@),
    }
}

fn device_number(v: Option<usize>, n: usize) -> (r: Option<usize>)
    ensures
        r is Some <==> counts_device(v, n as nat),
        r is Some ==> r->0 == v->0,
{
    match v {
        Some(x) => if 0 < x && x <= n {
            Some(x)
        } else {
            None
        },
        None => None,
    }
}

fn word_outcome_exec(t: &[char], n: usize) -> (r: Outcome)
    ensures
        outcome_view(r) == word_outcome(t@, n as nat),
{
    let (count, pos) = dash_scan(t);
    if count == 0 {
        match device_number(parse_usize(t), n) {
            Some(x) => Outcome::Select(x - 1, x - 1),
            None => Outcome::Warn(SelectionWarning::InvalidSelection(string_from_chars(t))),
        }
    } else if count >= 2 {
        Outcome::Warn(SelectionWarning::InvalidRangeFormat(string_from_chars(t)))
    } else {
        proof {
            let d = dash_position(t@);
            assert(dash_at(t@, d));
            assert(dash_at(t@, pos as int));
        }
        let tl = t.len();
        assert(pos < tl);
        let a = chars_between(t, 0, pos);
        let b = chars_between(t, pos + 1, tl);
        assert(a@ =~= t@.take(pos as int));
        assert(b@ =~= t@.skip(pos + 1));
        let x = device_number(parse_usize(a.as_slice()), n);
        match x {
            None => Outcome::Warn(SelectionWarning::InvalidRangeStart(string_from_chars(a.as_slice()))),
            Some(x) => {
                let y = device_number(parse_usize(b.as_slice()), n);
                match y {
                    None => Outcome::Warn(
                        SelectionWarning::InvalidRangeEnd(string_from_chars(b.as_slice())),
                    ),
                    Some(y) => if x > y {
                        Outcome::Warn(SelectionWarning::RangeStartAfterEnd(x, y))
                    } else {
                        Outcome::Select(x - 1, y - 1)
                    },
                }
            },
        }
    }
}

proof fn lemma_positions_bounded(ws: Seq<Seq<char>>, n: nat, m: nat)
    ensures
        forall|k: int|
            0 <= k < selected_positions(ws, n, m).len() ==> 0 <= #[trigger] selected_positions(
                ws,
                n,
                m,
            )[k] < m,
    decreases m,
{
    if m > 0 {
        lemma_positions_bounded(ws, n, (m - 1) as nat);
        let prev = selected_positions(ws, n, (m - 1) as nat);
        let cur = selected_positions(ws, n, m);
        assert forall|k: int| 0 <= k < cur.len() implies 0 <= #[trigger] cur[k] < m by {
            if k < prev.len() {
                assert(cur[k] == prev[k]);
            }
        }
    }
}

/// Reads the answer `input` given at the selection prompt, for a list of
/// `count` devices.
pub fn parse_selection(input: &str, count: usize) -> (r: Selection)
    ensures
        r@ == selection_of(input@, count as nat),
{
    let raw = chars_of(input);
    let t = trim_chars(raw.as_slice());
    let none = "none";
    let all = "all";
    let star = "*";
    proof {
        reveal_strlit("none");
        reveal_strlit("all");
        reveal_strlit("*");
    }
    let none_chars = chars_of(none);
    let all_chars = chars_of(all);
    let star_chars = chars_of(star);
    assert(none_chars@ =~= seq!['n', 'o', 'n', 'e']);
    assert(all_chars@ =~= seq!['a', 'l', 'l']);
    assert(star_chars@ =~= seq!['*']);
    if t.len() == 0 || chars_eq_ignore_ascii_case(t.as_slice(), none_chars.as_slice()) {
        return Selection::Nothing;
    }
    if chars_eq_ignore_ascii_case(t.as_slice(), all_chars.as_slice()) || crate::text::chars_eq(
        t.as_slice(),
        star_chars.as_slice(),
    ) {
        return Selection::Everything;
    }
    let ws = split_words(t.as_slice());
    let ghost wv = char_vecs_view(ws@);
    let ghost n = count as nat;
    let mut mask: Vec<bool> = Vec::new();
    let mut i: usize = 0;
    while i < count
        invariant
            i <= count,
            mask@.len() == i,
            forall|k: int| 0 <= k < i ==> !mask@[k],
        decreases count - i,
    {
        mask.push(false);
        i += 1;
    }
    let mut warnings: Vec<SelectionWarning> = Vec::new();
    let mut k: usize = 0;
    assert(wv.take(0) =~= Seq::<Seq<char>>::empty());
    while k < ws.len()
        invariant
            wv == char_vecs_view(ws@),
            n == count as nat,
            k <= ws@.len(),
            mask@.len() == count,
            forall|p: int| 0 <= p < count ==> #[trigger] mask@[p] == selected_by(wv.take(k as int), n, p),
            warnings_view(warnings@) == word_warnings(wv.take(k as int), n),
        decreases ws@.len() - k,
    {
        let ghost before = mask@;
        let ghost prefix = wv.take(k as int);
        let ghost next = wv.take(k + 1);
        assert(next.drop_last() =~= prefix);
        assert(next.last() == wv[k as int]);
        assert(wv[k as int] == ws@[k as int]@);
        let outcome = word_outcome_exec(ws[k].as_slice(), count);
        match outcome {
            Outcome::Select(lo, hi) => {
                let mut j: usize = lo;
                while j <= hi
                    invariant
                        lo <= hi,
                        hi < count,
                        lo <= j <= hi + 1,
                        mask@.len() == count,
                        forall|p: int|
                            0 <= p < count ==> #[trigger] mask@[p] == (before[p] || (lo <= p < j)),
                    decreases hi + 1 - j,
                {
                    mask.set(j, true);
                    j += 1;
                }
                assert(warnings_view(warnings@) =~= word_warnings(next, n));
            },
            Outcome::Warn(w) => {
                warnings.push(w);
                assert(warnings_view(warnings@) =~= word_warnings(next, n));
            },
        }
        assert forall|p: int| 0 <= p < count implies #[trigger] mask@[p] == selected_by(next, n, p) by {
            if selected_by(prefix, n, p) {
                let q = choose|q: int| 0 <= q < prefix.len() && #[trigger] word_selects(prefix[q], n, p);
                assert(next[q] == prefix[q]);
                assert(word_selects(next[q], n, p));
            }
            if selected_by(next, n, p) {
                let q = choose|q: int| 0 <= q < next.len() && #[trigger] word_selects(next[q], n, p);
                if q < prefix.len() {
                    assert(prefix[q] == next[q]);
                    assert(word_selects(prefix[q], n, p));
                }
            }
            if word_selects(next[k as int], n, p) {
                assert(selected_by(next, n, p));
            }
        }
        k += 1;
    }
    assert(wv.take(ws@.len() as int) =~= wv);
    let mut indices: Vec<usize> = Vec::new();
    let mut p: usize = 0;
    while p < count
        invariant
            wv == char_vecs_view(ws@),
            n == count as nat,
            p <= count,
            mask@.len() == count,
            forall|q: int| 0 <= q < count ==> #[trigger] mask@[q] == selected_by(wv, n, q),
            positions_view(indices@) == selected_positions(wv, n, p as nat),
        decreases count - p,
    {
        if mask[p] {
            indices.push(p);
        }
        p += 1;
        assert(positions_view(indices@) =~= selected_positions(wv, n, p as nat));
    }
    Selection::Chosen(indices, warnings)
}

/// The positions that `sel` names all lie below `n`.
pub open spec fn positions_within(sel: SelectionView, n: nat) -> bool {
    sel is Chosen ==> forall|k: int|
        0 <= k < sel->Chosen_0.len() ==> 0 <= #[trigger] sel->Chosen_0[k] < n
}

/// The devices that a selection designates among `devices`, in the order
/// of the list.
pub open spec fn selected_devices(sel: SelectionView, ds: Seq<DeviceView>) -> Seq<DeviceView> {
    match sel {
        SelectionView::Nothing => seq![],
        SelectionView::Everything => ds,
        SelectionView::Chosen(ix, _) => devices_at(ix, ds),
    }
}

/// The devices of `devices` that the selection designates. The positions
/// must lie within the list, as they do for a selection read for a list
/// of that length.
pub fn select_devices(devices: &[Device], selection: &Selection) -> (r: Vec<Device>)
    requires
        positions_within(selection@, devices@.len()),
    ensures
        devices_view(r@) == selected_devices(selection@, devices_view(devices@)),
{
    let ghost ds = devices_view(devices@);
    let ghost sv = selection@;
    assert(positions_within(sv, devices@.len()));
    let mut r: Vec<Device> = Vec::new();
    match selection {
        Selection::Nothing => {
            assert(devices_view(r@) =~= Seq::<DeviceView>::empty());
        },
        Selection::Everything => {
            let mut i: usize = 0;
            while i < devices.len()
                invariant
                    ds == devices_view(devices@),
                    i <= devices@.len(),
                    devices_view(r@) == ds.take(i as int),
                decreases devices@.len() - i,
            {
                let ghost before = r@;
                let c = devices[i].clone();
                assert(c@ == ds[i as int]);
                r.push(c);
                assert(devices_view(r@) =~= devices_view(before).push(c@));
                assert(ds.take(i + 1) =~= ds.take(i as int).push(ds[i as int]));
                i += 1;
            }
            assert(ds.take(devices@.len() as int) =~= ds);
        },
        Selection::Chosen(ix, wv) => {
            let ghost iv = positions_view(ix@);
            assert(sv == SelectionView::Chosen(iv, warnings_view(wv@)));
            assert(positions_within(sv, devices@.len()));
            assert(positions_within(SelectionView::Chosen(iv, warnings_view(wv@)), devices@.len()));
            assert(forall|q: int| 0 <= q < iv.len() ==> 0 <= #[trigger] iv[q] < devices@.len());
            let mut k: usize = 0;
            while k < ix.len()
                invariant
                    ds == devices_view(devices@),
                    iv == positions_view(ix@),
                    forall|q: int| 0 <= q < iv.len() ==> 0 <= #[trigger] iv[q] < devices@.len(),
                    k <= ix@.len(),
                    devices_view(r@) == devices_at(iv.take(k as int), ds),
                decreases ix@.len() - k,
            {
                assert(iv[k as int] == ix@[k as int] as int);
                let ghost before = r@;
                let c = devices[ix[k]].clone();
                assert(c@ == ds[iv[k as int]]);
                r.push(c);
                assert(devices_view(r@) =~= devices_view(before).push(c@));
                assert(devices_at(iv.take(k + 1), ds) =~= devices_at(iv.take(k as int), ds).push(
                    ds[iv[k as int]],
                ));
                k += 1;
            }
            assert(iv.take(ix@.len() as int) =~= iv);
        },
    }
    r
}

/// A selection read for `n` devices only names positions below `n`.
pub proof fn law_selection_within_list(input: Seq<char>, n: nat)
    ensures
        positions_within(selection_of(input, n), n),
{
    let t = trimmed(input);
    lemma_positions_bounded(words(t), n, n);
}

// ---------------------------------------------------------------------
// Patterns or prompt
// ---------------------------------------------------------------------

/// The patterns ask for an interactive selection: there are none, or
/// there is one and it is `-` or empty.
pub open spec fn asks_for_prompt(ps: Seq<Seq<char>>) -> bool {
    ps.len() == 0 || (ps.len() == 1 && (ps[0] == seq!['-'] || ps[0].len() == 0))
}

/// How the devices of a command are to be found.
pub enum DeviceChoice {
    /// The user is to pick among all devices at the selection prompt.
    Prompt,
    /// The devices that the patterns designate.
    Matched(Vec<Device>),
}

/// Decides how a command finds its devices: an empty pattern list, or the
/// single pattern `-` or ``, calls for the interactive prompt over all
/// devices; any other list is resolved as patterns.
pub fn resolve_or_select_devices(patterns: &[String], all_devices: &[Device]) -> (r: DeviceChoice)
    ensures
        asks_for_prompt(crate::models::strings_view(patterns@)) ==> r is Prompt,
        !asks_for_prompt(crate::models::strings_view(patterns@)) ==> (r matches DeviceChoice::Matched(
            v,
        ) && devices_view(v@) == crate::matching::resolved_devices(
            crate::models::strings_view(patterns@),
            devices_view(all_devices@),
        )),
{
    let ghost ps = crate::models::strings_view(patterns@);
    let dash = "-";
    proof {
        reveal_strlit("-");
    }
    assert(dash@ =~= seq!['-']);
    let interactive = patterns.len() == 0 || (patterns.len() == 1 && (crate::text::str_eq(
        patterns[0].as_str(),
        dash,
    ) || patterns[0].as_str().is_empty()));
    assert(patterns@.len() == 1 ==> ps[0] == patterns@[0]@);
    if interactive {
        DeviceChoice::Prompt
    } else {
        DeviceChoice::Matched(crate::matching::resolve_device_patterns(patterns, all_devices))
    }
}

} // verus!
