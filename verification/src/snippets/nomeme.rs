//! The "No bitches?" Megamind meme: a message saying "no <something>?" gets
//! the meme back with "NO <SOMETHING>?" written on it.

use vstd::prelude::*;

use super::MrSnippet;
use crate::runner::{Either, Job, JobView, Mismatch, MismatchView, Runner, RunnerView};
use crate::text::{
    byte_len, chars_of, cut_point, lemma_truncate_spec, is_whitespace, is_whitespace_char, push_char, string_of_range, to_uppercase,
    truncatable, truncate_spec, uppercase,
};

verus! {

/// The end of the run of whitespace in `s` that starts at `i`.
pub open spec fn whitespace_end(s: Seq<char>, i: int) -> int
    decreases s.len() - i,
{
    if 0 <= i < s.len() && is_whitespace(s[i]) {
        whitespace_end(s, i + 1)
    } else {
        i
    }
}

/// The end of the line of `s` that `i` is on: the next line feed, or the end.
pub open spec fn line_end(s: Seq<char>, i: int) -> int
    decreases s.len() - i,
{
    if 0 <= i < s.len() && s[i] != '\n' {
        line_end(s, i + 1)
    } else {
        i
    }
}

/// The last question mark of `s` at an index in `[g, e)`.
pub open spec fn last_question(s: Seq<char>, g: int, e: int) -> Option<int>
    decreases e - g,
{
    if e <= g {
        None
    } else if s[e - 1] == '?' {
        Some(e - 1)
    } else {
        last_question(s, g, e - 1)
    }
}

/// What the pattern `no\s+(.*)?\?` captures in a match that starts at `p`:
/// after "no" and all the whitespace that follows it (at least one
/// character), the rest of that line up to its last question mark.
pub open spec fn meme_match_at(s: Seq<char>, p: int) -> Option<Seq<char>> {
    if 0 <= p && p + 2 <= s.len() && s[p] == 'n' && s[p + 1] == 'o' {
        let g = whitespace_end(s, p + 2);
        if g > p + 2 {
            match last_question(s, g, line_end(s, g)) {
                Some(q) => Some(s.subrange(g, q)),
                None => None,
            }
        } else {
            None
        }
    } else {
        None
    }
}

/// The capture of the first match of `no\s+(.*)?\?` that starts at or after `p`.
pub open spec fn meme_match_from(s: Seq<char>, p: int) -> Option<Seq<char>>
    decreases s.len() - p,
{
    if p < 0 || p >= s.len() {
        None
    } else {
        match meme_match_at(s, p) {
            Some(t) => Some(t),
            None => meme_match_from(s, p + 1),
        }
    }
}

/// What the first match of `no\s+(.*)?\?` in `s` captures.
pub open spec fn meme_capture(s: Seq<char>) -> Option<Seq<char>> {
    meme_match_from(s, 0)
}

/// `t` is captured by a match of `no\s+(.*)?\?` whose "no" starts at `p`
/// and whose capture starts at `g`: "no", at least one whitespace
/// character up to `g`, then `t`, which holds no line feed, then a question
/// mark.
pub open spec fn meme_match_shape(s: Seq<char>, p: int, g: int, t: Seq<char>) -> bool {
    &&& 0 <= p
    &&& p + 2 < g
    &&& g + t.len() < s.len()
    &&& s[p] == 'n'
    &&& s[p + 1] == 'o'
    &&& forall|k: int| p + 2 <= k < g ==> is_whitespace(#[trigger] s[k])
    &&& s.subrange(g, g + t.len()) == t
    &&& s[g + t.len()] == '?'
    &&& forall|k: int| 0 <= k < t.len() ==> #[trigger] t[k] != '\n'
}

proof fn lemma_whitespace_end(s: Seq<char>, i: int)
    requires
        0 <= i <= s.len(),
    ensures
        i <= whitespace_end(s, i) <= s.len(),
        forall|k: int| i <= k < whitespace_end(s, i) ==> is_whitespace(#[trigger] s[k]),
    decreases s.len() - i,
{
    if i < s.len() && is_whitespace(s[i]) {
        lemma_whitespace_end(s, i + 1);
    }
}

proof fn lemma_line_end(s: Seq<char>, i: int)
    requires
        0 <= i <= s.len(),
    ensures
        i <= line_end(s, i) <= s.len(),
        forall|k: int| i <= k < line_end(s, i) ==> #[trigger] s[k] != '\n',
    decreases s.len() - i,
{
    if i < s.len() && s[i] != '\n' {
        lemma_line_end(s, i + 1);
    }
}

proof fn lemma_last_question(s: Seq<char>, g: int, e: int)
    ensures
        last_question(s, g, e) matches Some(q) ==> g <= q < e && s[q] == '?',
    decreases e - g,
{
    if e > g && s[e - 1] != '?' {
        lemma_last_question(s, g, e - 1);
    }
}

/// What a match of the meme pattern captures has the shape of the pattern:
/// "no", whitespace, the capture on one line, and a question mark.
pub proof fn lemma_meme_match_from(s: Seq<char>, p: int)
    ensures
        meme_match_from(s, p) matches Some(t) ==> exists|a: int, g: int|
            p <= a && meme_match_shape(s, a, g, t),
    decreases s.len() - p,
{
    if 0 <= p < s.len() {
        match meme_match_at(s, p) {
            Some(t) => {
                let g = whitespace_end(s, p + 2);
                lemma_whitespace_end(s, p + 2);
                lemma_line_end(s, g);
                let e = line_end(s, g);
                lemma_last_question(s, g, e);
                let q = last_question(s, g, e)->Some_0;
                assert(t == s.subrange(g, q));
                assert(s.subrange(g, g + t.len()) =~= t);
                assert forall|k: int| 0 <= k < t.len() implies #[trigger] t[k] != '\n' by {
                    assert(t[k] == s[g + k]);
                }
                assert(meme_match_shape(s, p, g, t));
            },
            None => {
                lemma_meme_match_from(s, p + 1);
            },
        }
    }
}

/// The text a message asks the meme about is what a match of
/// `no\s+(.*)?\?` captures: it follows "no" and at least one whitespace
/// character, stays on one line, and is followed by a question mark.
pub proof fn lemma_meme_capture(s: Seq<char>)
    ensures
        meme_capture(s) matches Some(t) ==> exists|p: int, g: int| meme_match_shape(s, p, g, t),
{
    lemma_meme_match_from(s, 0);
}

fn whitespace_end_of(v: &Vec<char>, i: usize) -> (r: usize)
    requires
        i <= v.len(),
    ensures
        r == whitespace_end(v@, i as int),
        i <= r <= v.len(),
{
    let mut j: usize = i;
    while j < v.len() && is_whitespace_char(v[j])
        invariant
            i <= j <= v.len(),
            whitespace_end(v@, i as int) == whitespace_end(v@, j as int),
        decreases v.len() - j,
    {
        j += 1;
    }
    j
}

fn line_end_of(v: &Vec<char>, i: usize) -> (r: usize)
    requires
        i <= v.len(),
    ensures
        r == line_end(v@, i as int),
        i <= r <= v.len(),
{
    let mut j: usize = i;
    while j < v.len() && v[j] != '\n'
        invariant
            i <= j <= v.len(),
            line_end(v@, i as int) == line_end(v@, j as int),
        decreases v.len() - j,
    {
        j += 1;
    }
    j
}

fn last_question_of(v: &Vec<char>, g: usize, e: usize) -> (r: Option<usize>)
    requires
        g <= e <= v.len(),
    ensures
        match r {
            Some(q) => last_question(v@, g as int, e as int) == Some(q as int) && g <= q < e,
            None => last_question(v@, g as int, e as int) is None,
        },
{
    let mut j: usize = e;
    while j > g
        invariant
            g <= j <= e <= v.len(),
            last_question(v@, g as int, e as int) == last_question(v@, g as int, j as int),
        decreases j - g,
    {
        if v[j - 1] == '?' {
            return Some(j - 1);
        }
        j -= 1;
    }
    None
}

fn meme_match_at_of(v: &Vec<char>, p: usize) -> (r: Option<(usize, usize)>)
    requires
        p < v.len(),
    ensures
        match meme_match_at(v@, p as int) {
            Some(t) => r matches Some((a, b)) && a <= b <= v.len() && t == v@.subrange(
                a as int,
                b as int,
            ),
            None => r is None,
        },
{
    if p + 1 < v.len() && v[p] == 'n' && v[p + 1] == 'o' {
        let g = whitespace_end_of(v, p + 2);
        if g > p + 2 {
            let e = line_end_of(v, g);
            match last_question_of(v, g, e) {
                Some(q) => Some((g, q)),
                None => None,
            }
        } else {
            None
        }
    } else {
        None
    }
}

/// The text that a "no <something>?" message asks the meme about.
pub fn meme_subject(content: &str) -> (r: Option<String>)
    ensures
        match r {
            Some(t) => meme_capture(content@) == Some(t@),
            None => meme_capture(content@) is None,
        },
{
    let v = chars_of(content);
    let mut p: usize = 0;
    while p < v.len()
        invariant
            p <= v.len(),
            v@ == content@,
            meme_capture(v@) == meme_match_from(v@, p as int),
        decreases v.len() - p,
    {
        match meme_match_at_of(&v, p) {
            Some((a, b)) => {
                return Some(string_of_range(&v, a, b));
            },
            None => {},
        }
        p += 1;
    }
    None
}

/// Bytes of text on one line of the meme.
pub const LINE_BYTES: usize = 17;
/// Vertical position of the first line, in pixels.
pub const TOP: u32 = 10;
/// Height of a line, and width of one step of horizontal centring, in pixels.
pub const LINE_STEP: u32 = 48;

/// The abstract value of a [`MemeLine`].
pub struct MemeLineView {
    pub text: Seq<char>,
    pub x: nat,
    pub y: nat,
}

/// One line of text drawn on the meme, with where it starts.
pub struct MemeLine {
    pub text: String,
    pub x: u32,
    pub y: u32,
}

impl View for MemeLine {
    type V = MemeLineView;

    open spec fn view(&self) -> MemeLineView {
        MemeLineView { text: self.text@, x: self.x as nat, y: self.y as nat }
    }
}

/// The lines of the meme text `t`, the first of them drawn as line `i`: each
/// holds the next [`LINE_BYTES`] bytes (all that are left, on the last line),
/// is centred by steps of [`LINE_STEP`] pixels on a line as wide as
/// [`LINE_BYTES`] characters, and sits [`LINE_STEP`] pixels below the previous one.
pub open spec fn meme_lines_from(t: Seq<char>, i: nat) -> Seq<MemeLineView>
    decreases t.len(),
{
    let c = truncate_spec(t, LINE_BYTES as int);
    if t.len() == 0 || c.len() == 0 || c.len() > t.len() {
        Seq::empty()
    } else {
        seq![
            MemeLineView {
                text: c,
                x: ((LINE_BYTES - byte_len(c)) / 2) as nat * LINE_STEP as nat,
                y: TOP as nat + LINE_STEP as nat * i,
            },
        ] + meme_lines_from(t.skip(c.len() as int), i + 1)
    }
}

/// Cutting `t` into lines of [`LINE_BYTES`] bytes never splits a character.
pub open spec fn meme_cuttable(t: Seq<char>) -> bool
    decreases t.len(),
{
    if t.len() == 0 {
        true
    } else {
        let c = truncate_spec(t, LINE_BYTES as int);
        truncatable(t, LINE_BYTES as int) && 0 < c.len() <= t.len() && meme_cuttable(
            t.skip(c.len() as int),
        )
    }
}

/// The text written on the meme about `what`.
pub open spec fn meme_text(what: Seq<char>) -> Seq<char> {
    "NO "@ + uppercase(what) + seq!['?']
}

/// The text `t` cuts into lines, and the position below its last line still
/// fits in a `u32`.
pub open spec fn meme_layable(t: Seq<char>) -> bool {
    meme_cuttable(t) && TOP as nat + LINE_STEP as nat * meme_lines_from(t, 0).len() <= u32::MAX
}

/// The meme can be drawn about `what`: its text can be laid out.
pub open spec fn meme_drawable(what: Seq<char>) -> bool {
    meme_layable(meme_text(what))
}

/// The texts of the lines, one after the other.
pub open spec fn lines_text(lines: Seq<MemeLineView>) -> Seq<char>
    decreases lines.len(),
{
    if lines.len() == 0 {
        Seq::empty()
    } else {
        lines[0].text + lines_text(lines.drop_first())
    }
}

/// The lines of a meme hold its whole text, in order, at most
/// [`LINE_BYTES`] bytes each, one below the other.
pub proof fn lemma_meme_lines_cover(t: Seq<char>, i: nat)
    requires
        meme_cuttable(t),
    ensures
        lines_text(meme_lines_from(t, i)) == t,
        forall|k: int|
            0 <= k < meme_lines_from(t, i).len() ==> byte_len(#[trigger] meme_lines_from(t, i)[k].text)
                <= LINE_BYTES && meme_lines_from(t, i)[k].y == TOP + LINE_STEP * (i + k),
    decreases t.len(),
{
    if t.len() > 0 {
        let c = truncate_spec(t, LINE_BYTES as int);
        lemma_truncate_spec(t, LINE_BYTES as int);
        let rest = t.skip(c.len() as int);
        lemma_meme_lines_cover(rest, i + 1);
        let ls = meme_lines_from(t, i);
        let tail = meme_lines_from(rest, i + 1);
        assert(ls.drop_first() =~= tail);
        assert(c + rest =~= t);
        assert forall|k: int| 0 <= k < ls.len() implies byte_len(#[trigger] ls[k].text) <= LINE_BYTES
            && ls[k].y == TOP + LINE_STEP * (i + k) by {
            if k > 0 {
                assert(ls[k] == tail[k - 1]);
            }
        }
    } else {
        assert(meme_lines_from(t, i) =~= Seq::<MemeLineView>::empty());
    }
}

/// Every line but the last is full, holding exactly [`LINE_BYTES`] bytes,
/// and each line is centred: the unused bytes of the line, split in two
/// halves (the left one rounded down), give its left margin in steps of
/// [`LINE_STEP`] pixels.
pub proof fn lemma_meme_lines_full_and_centred(t: Seq<char>, i: nat)
    requires
        meme_cuttable(t),
    ensures
        forall|k: int|
            0 <= k < meme_lines_from(t, i).len() - 1 ==> byte_len(#[trigger] meme_lines_from(t, i)[k].text)
                == LINE_BYTES,
        forall|k: int|
            0 <= k < meme_lines_from(t, i).len() ==> #[trigger] meme_lines_from(t, i)[k].x * 2 <= (
            LINE_BYTES - byte_len(meme_lines_from(t, i)[k].text)) * LINE_STEP < (
            meme_lines_from(t, i)[k].x / LINE_STEP as nat + 1) * 2 * LINE_STEP,
    decreases t.len(),
{
    lemma_meme_lines_cover(t, i);
    if t.len() > 0 {
        let c = truncate_spec(t, LINE_BYTES as int);
        lemma_truncate_spec(t, LINE_BYTES as int);
        let rest = t.skip(c.len() as int);
        lemma_meme_lines_full_and_centred(rest, i + 1);
        let ls = meme_lines_from(t, i);
        let tail = meme_lines_from(rest, i + 1);
        assert(ls.drop_first() =~= tail);
        assert forall|k: int| 0 <= k < ls.len() - 1 implies byte_len(#[trigger] ls[k].text) == LINE_BYTES by {
            if k > 0 {
                assert(ls[k] == tail[k - 1]);
            } else {
                if byte_len(t) <= LINE_BYTES {
                    assert(c == t);
                    assert(rest =~= Seq::<char>::empty());
                    assert(tail =~= Seq::<MemeLineView>::empty());
                }
            }
        }
        assert forall|k: int| 0 <= k < ls.len() implies #[trigger] ls[k].x * 2 <= (LINE_BYTES
            - byte_len(ls[k].text)) * LINE_STEP < (ls[k].x / LINE_STEP as nat + 1) * 2 * LINE_STEP by {
            if k > 0 {
                assert(ls[k] == tail[k - 1]);
            } else {
                let b = byte_len(c);
                assert(b <= 17);
                let h = ((LINE_BYTES - b) / 2) as nat;
                assert(ls[0].x == h * 48);
                assert(ls[0].x / 48 == h) by (nonlinear_arith)
                    requires ls[0].x == h * 48;
                assert(h * 48 * 2 <= (17 - b) * 48 < (h + 1) * 2 * 48) by (nonlinear_arith)
                    requires h == (17 - b) / 2, b <= 17;
            }
        }
    }
}

proof fn lemma_first_cut_nonempty(t: Seq<char>)
    requires
        t.len() > 0,
        truncatable(t, LINE_BYTES as int),
    ensures
        0 < truncate_spec(t, LINE_BYTES as int).len() <= t.len(),
{
    if (LINE_BYTES as int) < byte_len(t) {
        let k = choose|k: int| 0 <= k <= t.len() && byte_len(t.take(k)) == LINE_BYTES as int;
        assert(t.take(0) =~= Seq::<char>::empty());
        assert(k != 0);
    }
}

/// The lines that the meme text `text` is drawn as; `None` where cutting it
/// would split a character in two or run past the `u32` positions.
pub fn meme_lines_of(text: &str) -> (r: Option<Vec<MemeLine>>)
    ensures
        r is Some <==> meme_layable(text@),
        r matches Some(lines) ==> lines@.map_values(|l: MemeLine| l@) == meme_lines_from(text@, 0),
{
    let v = chars_of(text);
    let ghost t = v@;
    let mut lines: Vec<MemeLine> = Vec::new();
    let mut from: usize = 0;
    let mut y: u64 = TOP as u64;
    assert(v@.skip(0) =~= v@);
    while from < v.len()
        invariant
            t == v@,
            t == text@,
            from <= v.len(),
            y == TOP as nat + LINE_STEP as nat * lines.len(),
            y <= u32::MAX + LINE_STEP as nat,
            meme_cuttable(t) == meme_cuttable(t.skip(from as int)),
            lines@.map_values(|l: MemeLine| l@) + meme_lines_from(t.skip(from as int), lines.len() as nat)
                == meme_lines_from(t, 0),
        decreases v.len() - from,
    {
        let ghost rest = t.skip(from as int);
        match cut_point(&v, from, LINE_BYTES) {
            None => {
                return None;
            },
            Some((k, bytes)) => {
                proof {
                    lemma_first_cut_nonempty(rest);
                }
                if y > u32::MAX as u64 {
                    // Past the positions; every later line only lowers further.
                    assert(meme_lines_from(t, 0).len() >= lines.len());
                    return None;
                }
                let x: u32 = ((LINE_BYTES - bytes) / 2) as u32 * LINE_STEP;
                let line = MemeLine { text: string_of_range(&v, from, from + k), x, y: y as u32 };
                let ghost before = lines@.map_values(|l: MemeLine| l@);
                assert(v@.subrange(from as int, from + k) =~= rest.take(k as int));
                lines.push(line);
                assert(lines@.map_values(|l: MemeLine| l@) =~= before.push(line@));
                assert(rest.skip(k as int) =~= t.skip(from + k));
                from = from + k;
                y = y + LINE_STEP as u64;
            },
        }
    }
    assert(t.skip(from as int) =~= Seq::<char>::empty());
    if y > u32::MAX as u64 {
        return None;
    }
    Some(lines)
}

/// The lines of text of the meme about `what`; `None` where drawing it
/// would cut a character in two or run past the `u32` positions.
pub fn meme_lines(what: &str) -> (r: Option<Vec<MemeLine>>)
    ensures
        r is Some <==> meme_drawable(what@),
        r matches Some(lines) ==> lines@.map_values(|l: MemeLine| l@) == meme_lines_from(
            meme_text(what@),
            0,
        ),
{
    let upper = to_uppercase(what);
    let mut text = "NO ".to_owned();
    text.append(upper.as_str());
    push_char(&mut text, '?');
    proof {
        reveal_strlit("NO ");
    }
    assert(text@ =~= meme_text(what@));
    meme_lines_of(text.as_str())
}


/// No meme handler: answers "no <something>?" with the meme.
#[derive(Clone, Copy)]
pub struct NoMeme;

impl NoMeme {
    /// Create a new [`NoMeme`] handler. No Snippet?
    pub fn new() -> (r: NoMeme) {
        NoMeme
    }
}

impl MrSnippet for NoMeme {
    open spec fn answer(&self, content: Seq<char>) -> Either<RunnerView, MismatchView> {
        match meme_capture(content) {
            None => Either::Right(MismatchView::Continue),
            Some(text) => Either::Left(
                RunnerView { service: "no meme"@, name: "no meme"@, job: JobView::Meme(text) },
            ),
        }
    }

    open spec fn required_programs(&self) -> Seq<Seq<char>> {
        Seq::<Seq<char>>::empty()
    }

    fn dependencies(&self) -> (r: Vec<String>) {
        let r: Vec<String> = Vec::new();
        assert(r.deep_view() =~= Seq::<Seq<char>>::empty());
        r
    }

    open spec fn service_name(&self) -> Seq<char> {
        "no meme"@
    }

    fn name(&self) -> (r: &'static str) {
        "no meme"
    }

    fn try_or_continue(&self, content: &str) -> (r: Either<Runner, Mismatch>) {
        match meme_subject(content) {
            None => Either::Right(Mismatch::Continue),
            Some(text) => Either::Left(Runner::new("no meme", "no meme", Job::Meme(text))),
        }
    }
}

/// The meme handler: a message that the meme pattern matches gets a runner
/// that draws the meme about what the first match captures; any other
/// message lets the search continue.
pub proof fn lemma_nomeme_handler(content: Seq<char>)
    ensures
        match meme_capture(content) {
            Some(t) => NoMeme.answer(content) == Either::<RunnerView, MismatchView>::Left(
                RunnerView { service: "no meme"@, name: "no meme"@, job: JobView::Meme(t) },
            ),
            None => NoMeme.answer(content) == Either::<RunnerView, MismatchView>::Right(
                MismatchView::Continue,
            ),
        },
{
}

} // verus!
