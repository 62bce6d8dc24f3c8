use vstd::prelude::*;

verus! {

/// The parts, in order, with `sep` between each two of them.
pub open spec fn joined(parts: Seq<Seq<char>>, sep: Seq<char>) -> Seq<char>
    decreases parts.len(),
{
    if parts.len() == 0 {
        Seq::empty()
    } else if parts.len() == 1 {
        parts[0]
    } else {
        joined(parts.drop_last(), sep) + sep + parts.last()
    }
}

/// Joining one more part appends the separator and the part.
pub proof fn lemma_joined_push(parts: Seq<Seq<char>>, sep: Seq<char>, x: Seq<char>)
    ensures
        joined(parts.push(x), sep) == if parts.len() == 0 {
            x
        } else {
            joined(parts, sep) + sep + x
        },
{
    assert(parts.push(x).drop_last() =~= parts);
}

/// Appends a character with std's `String::push`. The contract claims what its
/// documentation says: the string afterwards holds the characters it held, then `c`.
#[verifier::external_body]
pub(crate) fn push_char(s: &mut String, c: char)
    ensures
        final(s)@ == old(s)@.push(c),
{
    s.push(c)
}

/// Whether a character has the Unicode White_Space property, as `char::is_whitespace`
/// documents it.
pub open spec fn is_space(c: char) -> bool {
    let u = c as u32;
    ||| 0x9 <= u <= 0xD
    ||| u == 0x20
    ||| u == 0x85
    ||| u == 0xA0
    ||| u == 0x1680
    ||| 0x2000 <= u <= 0x200A
    ||| u == 0x2028
    ||| u == 0x2029
    ||| u == 0x202F
    ||| u == 0x205F
    ||| u == 0x3000
}

/// Whether a character is white space.
pub fn is_whitespace(c: char) -> (b: bool)
    ensures
        b == is_space(c),
{
    let u = c as u32;
    (0x9 <= u && u <= 0xD) || u == 0x20 || u == 0x85 || u == 0xA0 || u == 0x1680 || (0x2000 <= u
        && u <= 0x200A) || u == 0x2028 || u == 0x2029 || u == 0x202F || u == 0x205F || u == 0x3000
}

/// The characters of a string, in order.
pub fn chars_of(s: &str) -> (v: Vec<char>)
    ensures
        v@ == s@,
{
    let mut v: Vec<char> = Vec::new();
    for c in it: s.chars()
        invariant
            v@ == it.seq().take(it.index() as int),
            it.seq() == s@,
    {
        assert(it.seq().take(it.index() + 1) =~= it.seq().take(it.index() as int).push(c));
        v.push(c);
    }
    v
}

/// A string holding the characters, in order.
pub fn string_of(v: &Vec<char>) -> (s: String)
    ensures
        s@ == v@,
{
    let mut s = String::new();
    let mut i: usize = 0;
    while i < v.len()
        invariant
            i <= v@.len(),
            s@ == v@.take(i as int),
        decreases v@.len() - i,
    {
        assert(v@.take(i + 1) =~= v@.take(i as int).push(v@[i as int]));
        push_char(&mut s, v[i]);
        i = i + 1;
    }
    assert(v@.take(i as int) =~= v@);
    s
}

/// The characters without the white space at the front.
pub open spec fn trim_start(s: Seq<char>) -> Seq<char>
    decreases s.len(),
{
    if s.len() > 0 && is_space(s[0]) {
        trim_start(s.drop_first())
    } else {
        s
    }
}

/// The characters without the white space at the back.
pub open spec fn trim_end(s: Seq<char>) -> Seq<char>
    decreases s.len(),
{
    if s.len() > 0 && is_space(s.last()) {
        trim_end(s.drop_last())
    } else {
        s
    }
}

/// The characters without white space at either end, as `str::trim` gives them.
pub open spec fn trimmed(s: Seq<char>) -> Seq<char> {
    trim_end(trim_start(s))
}

proof fn lemma_trim_start_at(s: Seq<char>, k: int)
    requires
        0 <= k <= s.len(),
        forall|i: int| 0 <= i < k ==> is_space(#[trigger] s[i]),
        k == s.len() || !is_space(s[k]),
    ensures
        trim_start(s) == s.subrange(k, s.len() as int),
    decreases k,
{
    if k == 0 {
        assert(s.subrange(0, s.len() as int) =~= s);
    } else {
        let t = s.drop_first();
        assert forall|i: int| 0 <= i < k - 1 implies is_space(#[trigger] t[i]) by {
            assert(t[i] == s[i + 1]);
        }
        lemma_trim_start_at(t, k - 1);
        assert(t.subrange(k - 1, t.len() as int) =~= s.subrange(k, s.len() as int));
    }
}

proof fn lemma_trim_end_at(s: Seq<char>, k: int)
    requires
        0 <= k <= s.len(),
        forall|i: int| k <= i < s.len() ==> is_space(#[trigger] s[i]),
        k == 0 || !is_space(s[k - 1]),
    ensures
        trim_end(s) == s.subrange(0, k),
    decreases s.len() - k,
{
    if k == s.len() {
        assert(s.subrange(0, k) =~= s);
    } else {
        let t = s.drop_last();
        assert forall|i: int| k <= i < t.len() implies is_space(#[trigger] t[i]) by {
            assert(t[i] == s[i]);
        }
        lemma_trim_end_at(t, k);
        assert(t.subrange(0, k) =~= s.subrange(0, k));
    }
}

/// Trimming leaves nothing exactly when every character is white space.
pub proof fn lemma_trimmed_empty(s: Seq<char>)
    ensures
        trimmed(s).len() == 0 <==> forall|i: int| 0 <= i < s.len() ==> is_space(#[trigger] s[i]),
    decreases s.len(),
{
    if s.len() > 0 && is_space(s[0]) {
        lemma_trimmed_empty(s.drop_first());
        assert forall|i: int| 0 <= i < s.len() && (forall|j: int| 0 <= j < s.len() - 1 ==> is_space(#[trigger] s.drop_first()[j])) implies is_space(#[trigger] s[i]) by {
            if i > 0 {
                assert(s.drop_first()[i - 1] == s[i]);
            }
        }
    } else if s.len() > 0 {
        lemma_trim_end_nonempty(s);
    }
}

proof fn lemma_trim_end_nonempty(s: Seq<char>)
    requires
        s.len() > 0,
        !is_space(s[0]),
    ensures
        trim_end(s).len() > 0,
    decreases s.len(),
{
    if is_space(s.last()) {
        lemma_trim_end_nonempty(s.drop_last());
    }
}

proof fn lemma_front_space(s: Seq<char>) -> (lo: int)
    ensures
        0 <= lo <= s.len(),
        trim_start(s) == s.subrange(lo, s.len() as int),
        forall|i: int| 0 <= i < lo ==> is_space(#[trigger] s[i]),
        lo == s.len() || !is_space(s[lo]),
    decreases s.len(),
{
    if s.len() > 0 && is_space(s[0]) {
        let t = s.drop_first();
        let k = lemma_front_space(t);
        assert forall|i: int| 0 <= i < k + 1 implies is_space(#[trigger] s[i]) by {
            if i > 0 {
                assert(s[i] == t[i - 1]);
            }
        }
        if k < t.len() {
            assert(s[k + 1] == t[k]);
        }
        assert(t.subrange(k, t.len() as int) =~= s.subrange(k + 1, s.len() as int));
        k + 1
    } else {
        assert(s.subrange(0, s.len() as int) =~= s);
        0
    }
}

proof fn lemma_back_space(s: Seq<char>) -> (hi: int)
    ensures
        0 <= hi <= s.len(),
        trim_end(s) == s.subrange(0, hi),
        forall|i: int| hi <= i < s.len() ==> is_space(#[trigger] s[i]),
        hi == 0 || !is_space(s[hi - 1]),
    decreases s.len(),
{
    if s.len() > 0 && is_space(s.last()) {
        let t = s.drop_last();
        let k = lemma_back_space(t);
        assert forall|i: int| k <= i < s.len() implies is_space(#[trigger] s[i]) by {
            if i < t.len() {
                assert(s[i] == t[i]);
            }
        }
        if k > 0 {
            assert(s[k - 1] == t[k - 1]);
        }
        assert(t.subrange(0, k) =~= s.subrange(0, k));
        k
    } else {
        assert(s.subrange(0, s.len() as int) =~= s);
        s.len() as int
    }
}

/// Trimming removes white space at both ends and nothing else: the trimmed text is a run of
/// the text with only white space before and after it, and, when it is not empty, it starts
/// and ends with a character that is not white space.
pub proof fn trimming_removes_only_outer_space(s: Seq<char>)
    ensures
        exists|lo: int, hi: int|
            {
                &&& 0 <= lo <= hi <= s.len()
                &&& trimmed(s) == s.subrange(lo, hi)
                &&& forall|i: int| 0 <= i < lo ==> is_space(#[trigger] s[i])
                &&& forall|i: int| hi <= i < s.len() ==> is_space(#[trigger] s[i])
                &&& lo < hi ==> !is_space(s[lo]) && !is_space(s[hi - 1])
            },
{
    let lo = lemma_front_space(s);
    let rest = s.subrange(lo, s.len() as int);
    let k = lemma_back_space(rest);
    let hi = lo + k;
    assert(rest.subrange(0, k) =~= s.subrange(lo, hi));
    assert forall|i: int| hi <= i < s.len() implies is_space(#[trigger] s[i]) by {
        assert(s[i] == rest[i - lo]);
    }
    if lo < hi {
        assert(s[hi - 1] == rest[k - 1]);
    }
    assert({
        &&& 0 <= lo <= hi <= s.len()
        &&& trimmed(s) == s.subrange(lo, hi)
        &&& forall|i: int| 0 <= i < lo ==> is_space(#[trigger] s[i])
        &&& forall|i: int| hi <= i < s.len() ==> is_space(#[trigger] s[i])
        &&& lo < hi ==> !is_space(s[lo]) && !is_space(s[hi - 1])
    });
}

/// Finds the bounds of the text between the white space at the ends.
pub fn trim_bounds(v: &Vec<char>) -> (b: (usize, usize))
    ensures
        b.0 <= b.1 <= v@.len(),
        v@.subrange(b.0 as int, b.1 as int) == trimmed(v@),
{
    let n = v.len();
    let mut lo: usize = 0;
    while lo < n && is_whitespace(v[lo])
        invariant
            lo <= n,
            n == v@.len(),
            forall|i: int| 0 <= i < lo ==> is_space(#[trigger] v@[i]),
        decreases n - lo,
    {
        lo = lo + 1;
    }
    proof {
        lemma_trim_start_at(v@, lo as int);
    }
    let ghost rest = v@.subrange(lo as int, n as int);
    let mut hi: usize = n;
    while hi > lo && is_whitespace(v[hi - 1])
        invariant
            lo <= hi <= n,
            n == v@.len(),
            rest == v@.subrange(lo as int, n as int),
            forall|i: int| hi <= i < n ==> is_space(#[trigger] v@[i]),
        decreases hi - lo,
    {
        hi = hi - 1;
    }
    proof {
        assert forall|i: int| hi - lo <= i < rest.len() implies is_space(#[trigger] rest[i]) by {
            assert(rest[i] == v@[lo + i]);
        }
        if hi > lo {
            assert(rest[hi - lo - 1] == v@[hi - 1]);
        }
        lemma_trim_end_at(rest, hi - lo);
        assert(rest.subrange(0, hi - lo) =~= v@.subrange(lo as int, hi as int));
    }
    (lo, hi)
}

/// The characters of `v` from `lo` up to `hi`.
pub fn slice_chars(v: &Vec<char>, lo: usize, hi: usize) -> (out: Vec<char>)
    requires
        lo <= hi <= v@.len(),
    ensures
        out@ == v@.subrange(lo as int, hi as int),
{
    let mut out: Vec<char> = Vec::new();
    let mut i = lo;
    while i < hi
        invariant
            lo <= i <= hi,
            hi <= v@.len(),
            out@ == v@.subrange(lo as int, i as int),
        decreases hi - i,
    {
        out.push(v[i]);
        assert(v@.subrange(lo as int, i + 1) =~= v@.subrange(lo as int, i as int).push(v@[i as int]));
        i = i + 1;
    }
    out
}

/// Whether a character is an ASCII digit.
pub open spec fn is_digit(c: char) -> bool {
    '0' <= c <= '9'
}

/// What cleaning keeps of a character: digits, '.', '-' and '+' as they are, ',' as the
/// decimal point '.', and nothing of any other character.
pub open spec fn kept_char(c: char) -> Option<char> {
    if is_digit(c) || c == '.' || c == '-' || c == '+' {
        Some(c)
    } else if c == ',' {
        Some('.')
    } else {
        None
    }
}

/// The characters that cleaning keeps, in order.
pub open spec fn cleaned(s: Seq<char>) -> Seq<char>
    decreases s.len(),
{
    if s.len() == 0 {
        Seq::empty()
    } else {
        cleaned(s.drop_last()) + match kept_char(s.last()) {
            Some(k) => seq![k],
            None => Seq::empty(),
        }
    }
}

/// Cleaning works character by character: cleaning joined text gives the cleaned parts
/// joined; a digit, '.', '-' or '+' stays as it is, a comma becomes the decimal point '.',
/// and every other character is dropped.
pub proof fn cleaning_works_char_by_char(a: Seq<char>, b: Seq<char>, c: char)
    ensures
        cleaned(a + b) == cleaned(a) + cleaned(b),
        ('0' <= c <= '9' || c == '.' || c == '-' || c == '+') ==> cleaned(seq![c]) == seq![c],
        c == ',' ==> cleaned(seq![c]) == seq!['.'],
        !('0' <= c <= '9' || c == '.' || c == '-' || c == '+' || c == ',') ==> cleaned(seq![c])
            == Seq::<char>::empty(),
    decreases b.len(),
{
    let one = seq![c];
    assert(one.drop_last() =~= Seq::<char>::empty());
    assert(one.last() == c);
    assert(cleaned(one) == cleaned(Seq::<char>::empty()) + match kept_char(c) {
        Some(k) => seq![k],
        None => Seq::<char>::empty(),
    });
    assert(cleaned(Seq::<char>::empty()) =~= Seq::<char>::empty());
    if kept_char(c) is Some {
        assert(cleaned(one) =~= seq![kept_char(c)->0]);
    } else {
        assert(cleaned(one) =~= Seq::<char>::empty());
    }
    if b.len() == 0 {
        assert(a + b =~= a);
        assert(cleaned(a) + cleaned(b) =~= cleaned(a));
    } else {
        cleaning_works_char_by_char(a, b.drop_last(), c);
        assert((a + b).drop_last() =~= a + b.drop_last());
        assert((a + b).last() == b.last());
        let tail = match kept_char(b.last()) {
            Some(k) => seq![k],
            None => Seq::<char>::empty(),
        };
        assert(cleaned(a + b) == cleaned(a + b.drop_last()) + tail);
        assert(cleaned(b) == cleaned(b.drop_last()) + tail);
        assert(cleaned(a) + cleaned(b.drop_last()) + tail =~= cleaned(a) + (cleaned(b.drop_last()) + tail));
    }
}

/// Whether the text has an 'm' or 'M', which marks a value in milliseconds.
pub open spec fn marks_millis(s: Seq<char>) -> bool {
    exists|i: int| 0 <= i < s.len() && (s[i] == 'm' || s[i] == 'M')
}

/// A pasted value reduced to the characters of a number, and whether it was given in
/// milliseconds.
#[derive(Debug, Clone)]
pub struct NumericText {
    pub text: String,
    pub millis: bool,
}

/// Reduces a pasted value such as "26.6667 s", "2,5" or "500 ms" to the characters of its
/// number ("26.6667", "2.5", "500"), and tells whether it was given in milliseconds. `None`
/// when the value is blank.
pub fn clean_numeric_text(s: &str) -> (out: Option<NumericText>)
    ensures
        out is None <==> trimmed(s@).len() == 0,
        out matches Some(t) ==> t.text@ == cleaned(trimmed(s@)) && t.millis == marks_millis(
            trimmed(s@),
        ),
{
    let all = chars_of(s);
    let (lo, hi) = trim_bounds(&all);
    if lo == hi {
        return None;
    }
    let t = slice_chars(&all, lo, hi);
    let mut text = String::new();
    let mut millis = false;
    let mut i: usize = 0;
    while i < t.len()
        invariant
            i <= t@.len(),
            text@ == cleaned(t@.take(i as int)),
            millis == marks_millis(t@.take(i as int)),
        decreases t@.len() - i,
    {
        let c = t[i];
        proof {
            assert(t@.take(i + 1).drop_last() =~= t@.take(i as int));
        }
        if ('0' <= c && c <= '9') || c == '.' || c == '-' || c == '+' {
            push_char(&mut text, c);
        } else if c == ',' {
            push_char(&mut text, '.');
        } else if c == 'm' || c == 'M' {
            millis = true;
        }
        proof {
            let p = t@.take(i as int);
            let q = t@.take(i + 1);
            assert(q[i as int] == c);
            if millis {
                if !marks_millis(p) {
                    assert(q[i as int] == 'm' || q[i as int] == 'M');
                }
            }
            if marks_millis(q) && !(c == 'm' || c == 'M') {
                let j = choose|j: int| 0 <= j < q.len() && (q[j] == 'm' || q[j] == 'M');
                assert(p[j] == q[j]);
            }
        }
        i = i + 1;
    }
    assert(t@.take(i as int) =~= t@);
    Some(NumericText { text, millis })
}

/// Where a line of pasted text is cut into values.
#[derive(Debug, Clone, Copy, PartialEq, Eq, Structural)]
pub enum Splitter {
    /// At each occurrence of the character.
    OnChar(char),
    /// At each white-space character.
    OnSpace,
}

/// Whether the splitter cuts at the character.
pub open spec fn cuts_at(sp: Splitter, c: char) -> bool {
    match sp {
        Splitter::OnChar(x) => c == x,
        Splitter::OnSpace => is_space(c),
    }
}

/// The pieces between the cuts, in order; `k` cuts give `k + 1` pieces, some of them empty.
pub open spec fn pieces(s: Seq<char>, sp: Splitter) -> Seq<Seq<char>>
    decreases s.len(),
{
    if s.len() == 0 {
        seq![Seq::empty()]
    } else {
        let p = pieces(s.drop_last(), sp);
        if cuts_at(sp, s.last()) {
            p.push(Seq::empty())
        } else {
            p.update(p.len() - 1, p.last().push(s.last()))
        }
    }
}

/// The pieces are never an empty list.
pub proof fn lemma_pieces_nonempty(s: Seq<char>, sp: Splitter)
    ensures
        pieces(s, sp).len() >= 1,
    decreases s.len(),
{
    if s.len() > 0 {
        lemma_pieces_nonempty(s.drop_last(), sp);
    }
}

/// Which pieces count as values: after a cut at a character, those that are not blank;
/// after cuts at white space, those that are not empty.
pub open spec fn keeps(sp: Splitter, piece: Seq<char>) -> bool {
    match sp {
        Splitter::OnChar(_) => trimmed(piece).len() > 0,
        Splitter::OnSpace => piece.len() > 0,
    }
}

/// The pieces that count as values, in order.
pub open spec fn kept_pieces(ps: Seq<Seq<char>>, sp: Splitter) -> Seq<Seq<char>>
    decreases ps.len(),
{
    if ps.len() == 0 {
        Seq::empty()
    } else {
        kept_pieces(ps.drop_last(), sp) + if keeps(sp, ps.last()) {
            seq![ps.last()]
        } else {
            Seq::empty()
        }
    }
}

/// The values of one trimmed line: cut at tabs when it has one, else at commas when it has
/// one, else at semicolons when it has one, else at white space.
pub open spec fn line_cells(t: Seq<char>) -> Seq<Seq<char>> {
    let sp = if t.contains('\t') {
        Splitter::OnChar('\t')
    } else if t.contains(',') {
        Splitter::OnChar(',')
    } else if t.contains(';') {
        Splitter::OnChar(';')
    } else {
        Splitter::OnSpace
    };
    kept_pieces(pieces(t, sp), sp)
}

/// The rows of values of the given lines: each line trimmed, blank lines left out.
pub open spec fn rows_of_lines(lines: Seq<Seq<char>>) -> Seq<Seq<Seq<char>>>
    decreases lines.len(),
{
    if lines.len() == 0 {
        Seq::empty()
    } else {
        rows_of_lines(lines.drop_last()) + if trimmed(lines.last()).len() > 0 {
            seq![line_cells(trimmed(lines.last()))]
        } else {
            Seq::empty()
        }
    }
}

/// The rows of values of pasted text: its lines are the pieces between line feeds (a
/// carriage return before a line feed is white space that trimming removes).
pub open spec fn clipboard_rows(s: Seq<char>) -> Seq<Seq<Seq<char>>> {
    rows_of_lines(pieces(s, Splitter::OnChar('\n')))
}

fn cuts(sp: Splitter, c: char) -> (b: bool)
    ensures
        b == cuts_at(sp, c),
{
    match sp {
        Splitter::OnChar(x) => c == x,
        Splitter::OnSpace => is_whitespace(c),
    }
}

/// The characters held by each vector, in order.
pub open spec fn char_views(v: Seq<Vec<char>>) -> Seq<Seq<char>> {
    v.map_values(|x: Vec<char>| x@)
}

/// The characters of each string, in order.
pub open spec fn string_views(v: Seq<String>) -> Seq<Seq<char>> {
    v.map_values(|x: String| x@)
}

/// The characters of each string of each row.
pub open spec fn string_rows(v: Seq<Vec<String>>) -> Seq<Seq<Seq<char>>> {
    v.map_values(|r: Vec<String>| string_views(r@))
}

/// Cuts the characters into pieces.
pub fn split_pieces(t: &Vec<char>, sp: Splitter) -> (out: Vec<Vec<char>>)
    ensures
        char_views(out@) == pieces(t@, sp),
{
    let mut done: Vec<Vec<char>> = Vec::new();
    let mut cur: Vec<char> = Vec::new();
    let mut i: usize = 0;
    while i < t.len()
        invariant
            i <= t@.len(),
            char_views(done@).push(cur@) == pieces(t@.take(i as int), sp),
        decreases t@.len() - i,
    {
        let c = t[i];
        let ghost before = char_views(done@).push(cur@);
        proof {
            assert(t@.take(i + 1).drop_last() =~= t@.take(i as int));
            assert(t@.take(i + 1).last() == c);
        }
        if cuts(sp, c) {
            let finished = cur;
            cur = Vec::new();
            done.push(finished);
            assert(char_views(done@).push(cur@) =~= before.push(Seq::empty()));
        } else {
            cur.push(c);
            assert(char_views(done@).push(cur@) =~= before.update(
                before.len() - 1,
                before.last().push(c),
            ));
        }
        i = i + 1;
    }
    assert(t@.take(i as int) =~= t@);
    let ghost last = char_views(done@).push(cur@);
    done.push(cur);
    assert(char_views(done@) =~= last);
    done
}

fn has_non_space(v: &Vec<char>) -> (b: bool)
    ensures
        b == (trimmed(v@).len() > 0),
{
    proof {
        lemma_trimmed_empty(v@);
    }
    let mut i: usize = 0;
    while i < v.len()
        invariant
            i <= v@.len(),
            forall|j: int| 0 <= j < i ==> is_space(#[trigger] v@[j]),
        decreases v@.len() - i,
    {
        if !is_whitespace(v[i]) {
            proof {
                lemma_trimmed_empty(v@);
                if trimmed(v@).len() == 0 {
                    assert(is_space(v@[i as int]));
                }
            }
            return true;
        }
        i = i + 1;
    }
    false
}

fn contains_char(v: &Vec<char>, c: char) -> (b: bool)
    ensures
        b == v@.contains(c),
{
    let mut i: usize = 0;
    while i < v.len()
        invariant
            i <= v@.len(),
            forall|j: int| 0 <= j < i ==> v@[j] != c,
        decreases v@.len() - i,
    {
        if v[i] == c {
            assert(v@[i as int] == c);
            return true;
        }
        i = i + 1;
    }
    false
}

/// The values of one trimmed line, as `line_cells` states them.
pub fn split_line(t: &Vec<char>) -> (cells: Vec<String>)
    ensures
        string_views(cells@) == line_cells(t@),
{
    let sp = if contains_char(t, '\t') {
        Splitter::OnChar('\t')
    } else if contains_char(t, ',') {
        Splitter::OnChar(',')
    } else if contains_char(t, ';') {
        Splitter::OnChar(';')
    } else {
        Splitter::OnSpace
    };
    let ps = split_pieces(t, sp);
    let ghost all = char_views(ps@);
    let mut cells: Vec<String> = Vec::new();
    let mut i: usize = 0;
    while i < ps.len()
        invariant
            i <= ps@.len(),
            all == char_views(ps@),
            all.len() == ps@.len(),
            string_views(cells@) == kept_pieces(all.take(i as int), sp),
        decreases ps@.len() - i,
    {
        let piece = &ps[i];
        proof {
            assert(all.take(i + 1).drop_last() =~= all.take(i as int));
            assert(all.take(i + 1).last() == piece@);
        }
        let keep = match sp {
            Splitter::OnChar(_) => has_non_space(piece),
            Splitter::OnSpace => piece.len() > 0,
        };
        if keep {
            let ghost before = string_views(cells@);
            cells.push(string_of(piece));
            assert(string_views(cells@) =~= before + seq![piece@]);
        } else {
            assert(kept_pieces(all.take(i + 1), sp) =~= kept_pieces(all.take(i as int), sp));
        }
        i = i + 1;
    }
    assert(all.take(i as int) =~= all);
    cells
}

/// Cuts pasted text into rows of values: lines at line feeds, each trimmed, blank ones
/// left out, and each line cut as `line_cells` states.
pub fn clipboard_cells(text: &str) -> (rows: Vec<Vec<String>>)
    ensures
        string_rows(rows@) == clipboard_rows(text@),
{
    let all = chars_of(text);
    let lines = split_pieces(&all, Splitter::OnChar('\n'));
    let ghost ls = char_views(lines@);
    let mut rows: Vec<Vec<String>> = Vec::new();
    let mut i: usize = 0;
    while i < lines.len()
        invariant
            i <= lines@.len(),
            ls == char_views(lines@),
            ls.len() == lines@.len(),
            ls == pieces(text@, Splitter::OnChar('\n')),
            string_rows(rows@) == rows_of_lines(ls.take(i as int)),
        decreases lines@.len() - i,
    {
        let line = &lines[i];
        proof {
            assert(ls.take(i + 1).drop_last() =~= ls.take(i as int));
            assert(ls.take(i + 1).last() == line@);
        }
        let (lo, hi) = trim_bounds(line);
        if lo < hi {
            let t = slice_chars(line, lo, hi);
            let ghost before = string_rows(rows@);
            rows.push(split_line(&t));
            assert(string_rows(rows@) =~= before + seq![line_cells(trimmed(line@))]);
        } else {
            assert(rows_of_lines(ls.take(i + 1)) =~= rows_of_lines(ls.take(i as int)));
        }
        i = i + 1;
    }
    assert(ls.take(i as int) =~= ls);
    rows
}

/// No piece holds a character that the splitter cuts at.
pub proof fn lemma_pieces_uncut(s: Seq<char>, sp: Splitter)
    ensures
        forall|k: int, j: int|
            0 <= k < pieces(s, sp).len() && 0 <= j < pieces(s, sp)[k].len() ==> !cuts_at(
                sp,
                #[trigger] pieces(s, sp)[k][j],
            ),
    decreases s.len(),
{
    lemma_pieces_nonempty(s, sp);
    if s.len() > 0 {
        let p = pieces(s.drop_last(), sp);
        lemma_pieces_uncut(s.drop_last(), sp);
        lemma_pieces_nonempty(s.drop_last(), sp);
        assert forall|k: int, j: int|
            0 <= k < pieces(s, sp).len() && 0 <= j < pieces(s, sp)[k].len() implies !cuts_at(
            sp,
            #[trigger] pieces(s, sp)[k][j],
        ) by {
            if !cuts_at(sp, s.last()) && k == p.len() - 1 && j == p.last().len() {
                assert(pieces(s, sp)[k][j] == s.last());
            } else if !cuts_at(sp, s.last()) && k == p.len() - 1 {
                assert(pieces(s, sp)[k][j] == p[k][j]);
            } else if k < p.len() {
                assert(pieces(s, sp)[k] == p[k]);
            }
        }
    }
}

proof fn lemma_kept_pieces_keep(ps: Seq<Seq<char>>, sp: Splitter)
    ensures
        forall|k: int| 0 <= k < kept_pieces(ps, sp).len() ==> keeps(sp, #[trigger] kept_pieces(ps, sp)[k]),
        forall|k: int| 0 <= k < kept_pieces(ps, sp).len() ==> ps.contains(#[trigger] kept_pieces(ps, sp)[k]),
    decreases ps.len(),
{
    if ps.len() > 0 {
        lemma_kept_pieces_keep(ps.drop_last(), sp);
        let head = kept_pieces(ps.drop_last(), sp);
        assert forall|k: int| 0 <= k < kept_pieces(ps, sp).len() implies ps.contains(#[trigger] kept_pieces(ps, sp)[k]) by {
            if k < head.len() {
                assert(kept_pieces(ps, sp)[k] == head[k]);
                let i = choose|i: int| 0 <= i < ps.drop_last().len() && ps.drop_last()[i] == head[k];
                assert(ps[i] == head[k]);
            } else {
                assert(ps[ps.len() - 1] == ps.last());
            }
        }
    }
}

/// Every value cut from a line holds a character that is not white space.
pub proof fn line_cells_are_not_blank(t: Seq<char>, k: int)
    requires
        0 <= k < line_cells(t).len(),
    ensures
        trimmed(line_cells(t)[k]).len() > 0,
{
    let sp = if t.contains('\t') {
        Splitter::OnChar('\t')
    } else if t.contains(',') {
        Splitter::OnChar(',')
    } else if t.contains(';') {
        Splitter::OnChar(';')
    } else {
        Splitter::OnSpace
    };
    let ps = pieces(t, sp);
    lemma_kept_pieces_keep(ps, sp);
    let c = line_cells(t)[k];
    assert(keeps(sp, c));
    if sp == Splitter::OnSpace {
        assert(ps.contains(c));
        let i = choose|i: int| 0 <= i < ps.len() && ps[i] == c;
        lemma_pieces_uncut(t, sp);
        assert(!cuts_at(sp, ps[i][0]));
        lemma_trimmed_empty(c);
        assert(!is_space(c[0]));
    }
}

/// Cutting at a character and putting the pieces back with that character between them gives
/// the text again: the pieces are exactly the runs between the cuts.
pub proof fn pieces_rejoin(s: Seq<char>, c: char)
    ensures
        joined(pieces(s, Splitter::OnChar(c)), seq![c]) == s,
    decreases s.len(),
{
    let sp = Splitter::OnChar(c);
    if s.len() == 0 {
        assert(joined(pieces(s, sp), seq![c]) =~= s);
    } else {
        let h = s.drop_last();
        let p = pieces(h, sp);
        pieces_rejoin(h, c);
        lemma_pieces_nonempty(h, sp);
        if s.last() == c {
            lemma_joined_push(p, seq![c], Seq::empty());
            assert(h + seq![c] =~= s);
            assert(joined(p, seq![c]) + seq![c] + Seq::<char>::empty() =~= s);
        } else {
            let q = p.update(p.len() - 1, p.last().push(s.last()));
            assert(q.drop_last() =~= p.drop_last());
            if p.len() == 1 {
                assert(joined(q, seq![c]) == q[0]);
                assert(joined(p, seq![c]) == p[0]);
                assert(q[0] =~= p[0].push(s.last()));
                assert(h.push(s.last()) =~= s);
            } else {
                assert(joined(q, seq![c]) == joined(p.drop_last(), seq![c]) + seq![c] + q.last());
                assert(joined(p, seq![c]) == joined(p.drop_last(), seq![c]) + seq![c] + p.last());
                assert(joined(q, seq![c]) =~= joined(p, seq![c]).push(s.last()));
                assert(h.push(s.last()) =~= s);
            }
        }
    }
}

/// How a line is cut into values: a line that holds a tab is cut at its tabs, whatever commas
/// or semicolons it holds; one without tabs but with a comma at its commas; one with neither
/// but with a semicolon at its semicolons; any other line at white space. The values are the
/// non-blank pieces between the cuts, in order, and none of them holds the character the line
/// was cut at.
pub proof fn lines_split_at_tabs_first(t: Seq<char>)
    ensures
        t.contains('\t') ==> line_cells(t) == kept_pieces(
            pieces(t, Splitter::OnChar('\t')),
            Splitter::OnChar('\t'),
        ),
        !t.contains('\t') && t.contains(',') ==> line_cells(t) == kept_pieces(
            pieces(t, Splitter::OnChar(',')),
            Splitter::OnChar(','),
        ),
        !t.contains('\t') && !t.contains(',') && t.contains(';') ==> line_cells(t) == kept_pieces(
            pieces(t, Splitter::OnChar(';')),
            Splitter::OnChar(';'),
        ),
        !t.contains('\t') && !t.contains(',') && !t.contains(';') ==> line_cells(t) == kept_pieces(
            pieces(t, Splitter::OnSpace),
            Splitter::OnSpace,
        ),
        t.contains('\t') ==> forall|k: int, j: int|
            0 <= k < line_cells(t).len() && 0 <= j < line_cells(t)[k].len() ==> #[trigger] line_cells(t)[k][j] != '\t',
        !t.contains('\t') && t.contains(',') ==> forall|k: int, j: int|
            0 <= k < line_cells(t).len() && 0 <= j < line_cells(t)[k].len() ==> #[trigger] line_cells(t)[k][j] != ',',
        !t.contains('\t') && !t.contains(',') && t.contains(';') ==> forall|k: int, j: int|
            0 <= k < line_cells(t).len() && 0 <= j < line_cells(t)[k].len() ==> #[trigger] line_cells(t)[k][j] != ';',
        !t.contains('\t') && !t.contains(',') && !t.contains(';') ==> forall|k: int, j: int|
            0 <= k < line_cells(t).len() && 0 <= j < line_cells(t)[k].len() ==> !is_space(#[trigger] line_cells(t)[k][j]),
{
    let sp = if t.contains('\t') {
        Splitter::OnChar('\t')
    } else if t.contains(',') {
        Splitter::OnChar(',')
    } else if t.contains(';') {
        Splitter::OnChar(';')
    } else {
        Splitter::OnSpace
    };
    let ps = pieces(t, sp);
    lemma_kept_pieces_keep(ps, sp);
    lemma_pieces_uncut(t, sp);
    assert forall|k: int, j: int|
        0 <= k < line_cells(t).len() && 0 <= j < line_cells(t)[k].len() implies !cuts_at(
        sp,
        #[trigger] line_cells(t)[k][j],
    ) by {
        let v = line_cells(t)[k];
        assert(ps.contains(v));
        let i = choose|i: int| 0 <= i < ps.len() && ps[i] == v;
        assert(ps[i][j] == v[j]);
    }
}

/// Every value cut from pasted text holds a character that is not white space.
pub proof fn clipboard_cells_are_not_blank(s: Seq<char>, i: int, k: int)
    requires
        0 <= i < clipboard_rows(s).len(),
        0 <= k < clipboard_rows(s)[i].len(),
    ensures
        trimmed(clipboard_rows(s)[i][k]).len() > 0,
{
    lemma_rows_are_line_cells(pieces(s, Splitter::OnChar('\n')), i);
    let t = choose|t: Seq<char>| clipboard_rows(s)[i] == line_cells(t);
    line_cells_are_not_blank(t, k);
}

proof fn lemma_rows_are_line_cells(lines: Seq<Seq<char>>, i: int)
    requires
        0 <= i < rows_of_lines(lines).len(),
    ensures
        exists|t: Seq<char>| rows_of_lines(lines)[i] == line_cells(t),
    decreases lines.len(),
{
    let head = rows_of_lines(lines.drop_last());
    if i < head.len() {
        lemma_rows_are_line_cells(lines.drop_last(), i);
        let t = choose|t: Seq<char>| head[i] == line_cells(t);
        assert(rows_of_lines(lines)[i] == head[i]);
    } else {
        assert(rows_of_lines(lines)[i] == line_cells(trimmed(lines.last())));
    }
}

/// Cleaning is idempotent: cleaned text holds only digits, '.', '-' and '+', so it has no
/// white space to trim, no millisecond mark, and cleaning it again gives it back.
pub proof fn cleaning_is_idempotent(s: Seq<char>)
    ensures
        cleaned(cleaned(s)) == cleaned(s),
        !marks_millis(cleaned(s)),
        trimmed(cleaned(s)) == cleaned(s),
    decreases s.len(),
{
    lemma_cleaned_chars(s);
    let c = cleaned(s);
    lemma_clean_of_clean(c);
    if c.len() > 0 {
        lemma_trim_start_at(c, 0);
        lemma_trim_end_at(c, c.len() as int);
        assert(c.subrange(0, c.len() as int) =~= c);
    }
}

proof fn lemma_cleaned_chars(s: Seq<char>)
    ensures
        forall|i: int| 0 <= i < cleaned(s).len() ==> {
            let c = #[trigger] cleaned(s)[i];
            is_digit(c) || c == '.' || c == '-' || c == '+'
        },
    decreases s.len(),
{
    if s.len() > 0 {
        lemma_cleaned_chars(s.drop_last());
        let head = cleaned(s.drop_last());
        assert forall|i: int| 0 <= i < cleaned(s).len() implies {
            let c = #[trigger] cleaned(s)[i];
            is_digit(c) || c == '.' || c == '-' || c == '+'
        } by {
            if i < head.len() {
                assert(cleaned(s)[i] == head[i]);
            }
        }
    }
}

proof fn lemma_clean_of_clean(c: Seq<char>)
    requires
        forall|i: int| 0 <= i < c.len() ==> {
            let x = #[trigger] c[i];
            is_digit(x) || x == '.' || x == '-' || x == '+'
        },
    ensures
        cleaned(c) == c,
        !marks_millis(c),
    decreases c.len(),
{
    if c.len() > 0 {
        let h = c.drop_last();
        assert forall|i: int| 0 <= i < h.len() implies {
            let x = #[trigger] h[i];
            is_digit(x) || x == '.' || x == '-' || x == '+'
        } by {
            assert(h[i] == c[i]);
        }
        lemma_clean_of_clean(h);
        assert(c.last() == c[c.len() - 1]);
        assert(cleaned(c) =~= c);
    }
    if marks_millis(c) {
        let i = choose|i: int| 0 <= i < c.len() && (c[i] == 'm' || c[i] == 'M');
        assert(is_digit(c[i]) || c[i] == '.' || c[i] == '-' || c[i] == '+');
    }
}

} // verus!
