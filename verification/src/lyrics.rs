//! Synchronized lyrics: timestamped lines and the cursor that follows them.
//!
//! Reading and parsing the sibling lyric file is local I/O done by the
//! embedding driver; the player only holds the parsed lines, ordered by
//! timestamp, and moves a cursor past every line whose timestamp the
//! playback position has passed.

use vstd::prelude::*;

verus! {

/// One lyric line: when it is due (milliseconds into the track) and its text.
pub struct Lyric {
    pub time: u64,
    pub content: String,
}

/// The mathematical value of one lyric line.
pub struct LyricModel {
    pub time: u64,
    pub content: Seq<char>,
}

impl View for Lyric {
    type V = LyricModel;

    open spec fn view(&self) -> LyricModel {
        LyricModel { time: self.time, content: self.content@ }
    }
}

impl DeepView for Lyric {
    type V = LyricModel;

    open spec fn deep_view(&self) -> LyricModel {
        self.view()
    }
}

/// The lyric lines of one track, in play order.
pub struct Lyrics {
    pub list: Vec<Lyric>,
}

impl View for Lyrics {
    type V = Seq<LyricModel>;

    open spec fn view(&self) -> Seq<LyricModel> {
        self.list.deep_view()
    }
}

impl Lyrics {
    /// How many lyric lines there are.
    pub fn count(&self) -> (n: usize)
        ensures
            n == self@.len(),
    {
        self.list.len()
    }

    /// A track without lyrics.
    pub fn empty() -> (l: Lyrics)
        ensures
            l@ == Seq::<LyricModel>::empty(),
    {
        let l = Lyrics { list: Vec::new() };
        proof {
            assert(l@ =~= Seq::<LyricModel>::empty());
        }
        l
    }

    /// Parse the text of a lyric file: every line of the shape
    /// `[mm:ss.cc]text` becomes one timestamped entry, in order; other
    /// lines are skipped.
    pub fn from_text(s: &str) -> (l: Lyrics)
        ensures
            l@ == lyrics_of(s@),
    {
        let n = s.unicode_len();
        let mut list: Vec<Lyric> = Vec::new();
        let mut i: usize = 0;
        proof {
            assert(lyrics_of(s@) =~= list.deep_view() + lyrics_from(s@, 0));
        }
        while i < n
            invariant
                i <= n + 1,
                n == s@.len(),
                lyrics_of(s@) == list.deep_view() + lyrics_from(s@, i as int),
            decreases n - i,
        {
            let e = scan_line_end(s, i, n);
            let parsed = parse_line_at_exec(s, i, e);
            let ghost before = list.deep_view();
            match parsed {
                Option::Some(ly) => {
                    let ghost lym = ly@;
                    list.push(ly);
                    proof {
                        assert(list.deep_view() =~= before.push(lym));
                    }
                },
                Option::None => {},
            }
            if e < n {
                proof {
                    assert(lyrics_of(s@) =~= list.deep_view() + lyrics_from(s@, e + 1));
                }
                i = e + 1;
            } else {
                proof {
                    assert(lyrics_of(s@) =~= list.deep_view() + lyrics_from(s@, n as int));
                }
                i = n;
            }
        }
        proof {
            assert(lyrics_of(s@) =~= list.deep_view());
        }
        Lyrics { list }
    }
}

// ---------------------------------------------------------------------------
// The lyric-file grammar: lines of the shape `[mm:ss.cc]text`.
// ---------------------------------------------------------------------------

/// A decimal digit (the code points of `'0'` through `'9'`).
pub open spec fn is_digit(c: char) -> bool {
    48 <= c as u32 <= 57
}

/// The value of one decimal digit.
pub open spec fn digit_val(c: char) -> int {
    c as u32 - 48
}

/// The value of a run of decimal digits.
pub open spec fn digits_val(run: Seq<char>) -> int
    decreases run.len(),
{
    if run.len() == 0 {
        0
    } else {
        digits_val(run.drop_last()) * 10 + digit_val(run.last())
    }
}

/// Where the run of decimal digits beginning at `from` ends, within
/// `[from, end)` of the text.
pub open spec fn digits_end(s: Seq<char>, from: int, end: int) -> int
    decreases end - from,
{
    if from < end && from < s.len() && is_digit(s[from]) {
        digits_end(s, from + 1, end)
    } else {
        from
    }
}

/// Where the line beginning at `from` ends: at the next newline, or at the
/// end of the text.
pub open spec fn line_end(s: Seq<char>, from: int) -> int
    decreases s.len() - from,
{
    if from < s.len() && s[from] != '\n' {
        line_end(s, from + 1)
    } else {
        from
    }
}

/// A line's end lies between its start and the end of the text.
pub proof fn lemma_line_end_bounds(s: Seq<char>, from: int)
    requires
        0 <= from <= s.len(),
    ensures
        from <= line_end(s, from) <= s.len(),
        line_end(s, from) < s.len() ==> s[line_end(s, from)] == '\n',
    decreases s.len() - from,
{
    if from < s.len() && s[from] != '\n' {
        lemma_line_end_bounds(s, from + 1);
    }
}

/// The lyric denoted by the line of the text that spans `[start, end)`, if
/// it has the shape `[mm:ss.cc]text`: an opening bracket, three runs of
/// digits separated by `:` and `.`, a closing bracket, and the rest of the
/// line as the text. The timestamp counts `mm` minutes, `ss` seconds and
/// `cc` milliseconds; a line of any other shape, or one whose timestamp
/// does not fit the clock, denotes none.
pub open spec fn parse_line_at(s: Seq<char>, start: int, end: int) -> Option<LyricModel> {
    let me = digits_end(s, start + 1, end);
    let se = digits_end(s, me + 1, end);
    let ce = digits_end(s, se + 1, end);
    if start < end && s[start] == '[' && me > start + 1 && me < end && s[me] == ':' && se > me + 1
        && se < end && s[se] == '.' && ce > se + 1 && ce < end && s[ce] == ']' {
        let t = digits_val(s.subrange(start + 1, me)) * 60000 + digits_val(s.subrange(me + 1, se))
            * 1000 + digits_val(s.subrange(se + 1, ce));
        if t <= u64::MAX {
            Option::Some(LyricModel { time: t as u64, content: s.subrange(ce + 1, end) })
        } else {
            Option::None
        }
    } else {
        Option::None
    }
}

/// The lyrics the text denotes from position `from` on, line by line.
pub open spec fn lyrics_from(s: Seq<char>, from: int) -> Seq<LyricModel>
    decreases s.len() - from,
{
    if 0 <= from < s.len() {
        let e = line_end(s, from);
        let first = match parse_line_at(s, from, e) {
            Option::Some(x) => seq![x],
            Option::None => Seq::<LyricModel>::empty(),
        };
        proof {
            lemma_line_end_bounds(s, from);
        }
        if e < s.len() {
            first + lyrics_from(s, e + 1)
        } else {
            first
        }
    } else {
        Seq::empty()
    }
}

/// The lyrics a lyric-file text denotes.
pub open spec fn lyrics_of(s: Seq<char>) -> Seq<LyricModel> {
    lyrics_from(s, 0)
}

/// The value of a run of digits is never negative.
proof fn lemma_digits_val_nonneg(run: Seq<char>)
    requires
        forall|j: int| 0 <= j < run.len() ==> is_digit(#[trigger] run[j]),
    ensures
        digits_val(run) >= 0,
    decreases run.len(),
{
    if run.len() > 0 {
        assert(forall|j: int| 0 <= j < run.len() - 1 ==> run.drop_last()[j] == run[j]);
        lemma_digits_val_nonneg(run.drop_last());
    }
}

/// Reading more digits never shrinks the value.
proof fn lemma_digits_val_grows(s: Seq<char>, p: int, k: int, e: int)
    requires
        0 <= p <= k <= e <= s.len(),
        forall|j: int| p <= j < e ==> is_digit(#[trigger] s[j]),
    ensures
        digits_val(s.subrange(p, k)) <= digits_val(s.subrange(p, e)),
    decreases e - k,
{
    if k < e {
        let shorter = s.subrange(p, k);
        let longer = s.subrange(p, k + 1);
        assert(longer.drop_last() =~= shorter);
        assert(forall|j: int| 0 <= j < shorter.len() ==> shorter[j] == s[p + j]);
        lemma_digits_val_nonneg(shorter);
        assert(digits_val(longer) == digits_val(shorter) * 10 + digit_val(s[k]));
        lemma_digits_val_grows(s, p, k + 1, e);
    }
}

/// The bounds and content of a digit run, from its definition.
proof fn lemma_digits_end_props(s: Seq<char>, from: int, end: int)
    requires
        0 <= from <= end <= s.len(),
    ensures
        from <= digits_end(s, from, end) <= end,
        forall|j: int| from <= j < digits_end(s, from, end) ==> is_digit(#[trigger] s[j]),
        digits_end(s, from, end) < end ==> !is_digit(s[digits_end(s, from, end)]),
    decreases end - from,
{
    if from < end && is_digit(s[from]) {
        lemma_digits_end_props(s, from + 1, end);
    }
}

/// Where the lyric cursor comes to rest: from position `from`, it steps
/// forward as long as the next line's timestamp has already been passed by
/// the playback position `pos`.
pub open spec fn cursor_rest(lyrics: Seq<LyricModel>, from: nat, pos: u64) -> nat
    decreases lyrics.len() - from,
{
    if from + 1 < lyrics.len() && pos > lyrics[from as int + 1].time {
        cursor_rest(lyrics, from + 1, pos)
    } else {
        from
    }
}

/// Whether a character is a decimal digit.
fn is_digit_exec(c: char) -> (r: bool)
    ensures
        r == is_digit(c),
{
    let u = c as u32;
    48 <= u && u <= 57
}

/// Scan to the end of the run of digits beginning at `from`, within
/// `[from, end)`.
fn scan_digits(s: &str, from: usize, end: usize) -> (r: usize)
    requires
        from <= end <= s@.len(),
    ensures
        r == digits_end(s@, from as int, end as int),
        from <= r <= end,
{
    let mut i: usize = from;
    while i < end && is_digit_exec(s.get_char(i))
        invariant
            from <= i <= end,
            end <= s@.len(),
            digits_end(s@, from as int, end as int) == digits_end(s@, i as int, end as int),
        decreases end - i,
    {
        i = i + 1;
    }
    i
}

/// Scan to the end of the line beginning at `from`.
fn scan_line_end(s: &str, from: usize, n: usize) -> (r: usize)
    requires
        from <= n,
        n == s@.len(),
    ensures
        r == line_end(s@, from as int),
        from <= r <= n,
{
    let mut i: usize = from;
    while i < n && s.get_char(i) != '\n'
        invariant
            from <= i <= n,
            n == s@.len(),
            line_end(s@, from as int) == line_end(s@, i as int),
        decreases n - i,
    {
        i = i + 1;
    }
    i
}

/// The value of the run of digits spanning `[p, e)`, or none when it does
/// not fit a `u64`.
fn digits_value(s: &str, p: usize, e: usize) -> (r: Option<u64>)
    requires
        p <= e <= s@.len(),
        forall|j: int| p <= j < e ==> is_digit(#[trigger] s@[j]),
    ensures
        match r {
            Option::Some(v) => v as int == digits_val(s@.subrange(p as int, e as int)),
            Option::None => digits_val(s@.subrange(p as int, e as int)) > u64::MAX,
        },
{
    let mut val: u64 = 0;
    let mut k: usize = p;
    while k < e
        invariant
            p <= k <= e <= s@.len(),
            forall|j: int| p <= j < e ==> is_digit(#[trigger] s@[j]),
            val as int == digits_val(s@.subrange(p as int, k as int)),
        decreases e - k,
    {
        let c = s.get_char(k);
        let d = (c as u32 - 48) as u64;
        proof {
            let shorter = s@.subrange(p as int, k as int);
            let longer = s@.subrange(p as int, k + 1 as int);
            assert(longer.drop_last() =~= shorter);
            assert(digits_val(longer) == digits_val(shorter) * 10 + digit_val(s@[k as int]));
        }
        if val > (u64::MAX - d) / 10 {
            proof {
                lemma_digits_val_grows(s@, p as int, k + 1, e as int);
            }
            return Option::None;
        }
        val = val * 10 + d;
        k = k + 1;
    }
    proof {
        assert(s@.subrange(p as int, e as int) =~= s@.subrange(p as int, k as int));
    }
    Option::Some(val)
}

/// Parse the line of the text that spans `[start, end)`.
fn parse_line_at_exec(s: &str, start: usize, end: usize) -> (r: Option<Lyric>)
    requires
        start <= end <= s@.len(),
    ensures
        r.deep_view() == parse_line_at(s@, start as int, end as int),
{
    if start >= end || s.get_char(start) != '[' {
        return Option::None;
    }
    proof {
        lemma_digits_end_props(s@, start + 1, end as int);
    }
    let me = scan_digits(s, start + 1, end);
    if me == start + 1 || me >= end || s.get_char(me) != ':' {
        return Option::None;
    }
    proof {
        lemma_digits_end_props(s@, me + 1, end as int);
    }
    let se = scan_digits(s, me + 1, end);
    if se == me + 1 || se >= end || s.get_char(se) != '.' {
        return Option::None;
    }
    proof {
        lemma_digits_end_props(s@, se + 1, end as int);
    }
    let ce = scan_digits(s, se + 1, end);
    if ce == se + 1 || ce >= end || s.get_char(ce) != ']' {
        return Option::None;
    }
    let ghost minutes_run = s@.subrange(start + 1, me as int);
    let ghost seconds_run = s@.subrange(me + 1, se as int);
    let ghost millis_run = s@.subrange(se + 1, ce as int);
    proof {
        lemma_digits_val_nonneg(minutes_run);
        lemma_digits_val_nonneg(seconds_run);
        lemma_digits_val_nonneg(millis_run);
        assert(forall|j: int| 0 <= j < minutes_run.len() ==> minutes_run[j] == s@[start + 1 + j]);
        assert(forall|j: int| 0 <= j < seconds_run.len() ==> seconds_run[j] == s@[me + 1 + j]);
        assert(forall|j: int| 0 <= j < millis_run.len() ==> millis_run[j] == s@[se + 1 + j]);
    }
    let minutes = match digits_value(s, start + 1, me) {
        Option::Some(v) => v,
        Option::None => {
            return Option::None;
        },
    };
    let seconds = match digits_value(s, me + 1, se) {
        Option::Some(v) => v,
        Option::None => {
            return Option::None;
        },
    };
    let millis = match digits_value(s, se + 1, ce) {
        Option::Some(v) => v,
        Option::None => {
            return Option::None;
        },
    };
    if minutes > u64::MAX / 60000 {
        return Option::None;
    }
    let from_minutes = minutes * 60000;
    if seconds > u64::MAX / 1000 {
        return Option::None;
    }
    let from_seconds = seconds * 1000;
    if from_minutes > u64::MAX - from_seconds {
        return Option::None;
    }
    let partial = from_minutes + from_seconds;
    if partial > u64::MAX - millis {
        return Option::None;
    }
    let time = partial + millis;
    let content = String::from_str(s.substring_char(ce + 1, end));
    Option::Some(Lyric { time, content })
}

/// The cursor never leaves the lines, and never moves backwards.
pub proof fn lemma_cursor_rest_bounds(lyrics: Seq<LyricModel>, from: nat, pos: u64)
    requires
        from < lyrics.len() || from == 0,
    ensures
        from <= cursor_rest(lyrics, from, pos),
        cursor_rest(lyrics, from, pos) < lyrics.len() || cursor_rest(lyrics, from, pos) == 0,
    decreases lyrics.len() - from,
{
    if from + 1 < lyrics.len() && pos > lyrics[from as int + 1].time {
        lemma_cursor_rest_bounds(lyrics, from + 1, pos);
    }
}

} // verus!
