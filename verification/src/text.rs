use vstd::prelude::*;

verus! {

/// The Unicode `White_Space` property, as a set of code points.
pub open spec fn is_white_space(c: char) -> bool {
    let u = c as u32;
    ||| (0x09 <= u && u <= 0x0d)
    ||| u == 0x20
    ||| u == 0x85
    ||| u == 0xa0
    ||| u == 0x1680
    ||| (0x2000 <= u && u <= 0x200a)
    ||| u == 0x2028
    ||| u == 0x2029
    ||| u == 0x202f
    ||| u == 0x205f
    ||| u == 0x3000
}

/// Whether `c` has the Unicode `White_Space` property (what `char::is_whitespace` tests).
pub fn is_whitespace(c: char) -> (r: bool)
    ensures
        r == is_white_space(c),
{
    let u = c as u32;
    (0x09 <= u && u <= 0x0d) || u == 0x20 || u == 0x85 || u == 0xa0 || u == 0x1680 || (0x2000
        <= u && u <= 0x200a) || u == 0x2028 || u == 0x2029 || u == 0x202f || u == 0x205f || u
        == 0x3000
}


/// The characters of `s`, in order.
pub fn chars_of(s: &str) -> (r: Vec<char>)
    ensures
        r@ == s@,
{
    let mut out: Vec<char> = Vec::new();
    for c in it: s.chars()
        invariant
            out@ == it.seq().take(it.index() as int),
            it.seq() == s@,
    {
        out.push(c);
    }
    out
}


/// Appends one character to a string (`String::push`).
#[verifier::external_body]
pub(crate) fn push_char(s: &mut String, c: char)
    ensures
        final(s)@ == old(s)@.push(c),
{
    s.push(c);
}

/// The string made of `cs[lo..hi]`.
pub fn string_from_range(cs: &Vec<char>, lo: usize, hi: usize) -> (r: String)
    requires
        lo <= hi <= cs@.len(),
    ensures
        r@ == cs@.subrange(lo as int, hi as int),
{
    let mut out = String::new();
    let mut i = lo;
    while i < hi
        invariant
            lo <= i <= hi <= cs@.len(),
            out@ == cs@.subrange(lo as int, i as int),
        decreases hi - i,
    {
        push_char(&mut out, cs[i]);
        assert(cs@.subrange(lo as int, i + 1) == cs@.subrange(lo as int, i as int).push(cs@[i as int]));
        i += 1;
    }
    out
}

/// Whether every character of `s` is white space (so `s.trim()` is empty).
pub open spec fn all_white_space(s: Seq<char>) -> bool {
    forall|i: int| 0 <= i < s.len() ==> is_white_space(#[trigger] s[i])
}

/// Whether `s` is empty after trimming white space.
pub fn is_blank(s: &str) -> (r: bool)
    ensures
        r == all_white_space(s@),
{
    let cs = chars_of(s);
    let mut i: usize = 0;
    while i < cs.len()
        invariant
            cs@ == s@,
            i <= cs@.len(),
            forall|k: int| 0 <= k < i ==> is_white_space(#[trigger] s@[k]),
        decreases cs.len() - i,
    {
        if !is_whitespace(cs[i]) {
            return false;
        }
        i += 1;
    }
    true
}

/// `s` without its leading white space.
pub open spec fn trim_start(s: Seq<char>) -> Seq<char>
    decreases s.len(),
{
    if s.len() > 0 && is_white_space(s[0]) {
        trim_start(s.drop_first())
    } else {
        s
    }
}

/// `s` without its trailing white space.
pub open spec fn trim_end(s: Seq<char>) -> Seq<char>
    decreases s.len(),
{
    if s.len() > 0 && is_white_space(s.last()) {
        trim_end(s.drop_last())
    } else {
        s
    }
}

/// `s` without leading and trailing white space (what `str::trim` returns).
pub open spec fn trimmed(s: Seq<char>) -> Seq<char> {
    trim_end(trim_start(s))
}

/// The string `s` with leading and trailing white space removed.
pub fn trim(s: &str) -> (r: String)
    ensures
        r@ == trimmed(s@),
{
    let cs = chars_of(s);
    let n = cs.len();
    let mut i: usize = 0;
    assert(s@.skip(0) == s@);
    while i < n && is_whitespace(cs[i])
        invariant
            cs@ == s@,
            n == cs@.len(),
            i <= n,
            trim_start(s@) == trim_start(s@.skip(i as int)),
        decreases n - i,
    {
        assert(s@.skip(i as int).drop_first() == s@.skip(i + 1));
        i += 1;
    }
    assert(trim_start(s@.skip(i as int)) == s@.skip(i as int));
    let mut j: usize = n;
    while j > i && is_whitespace(cs[j - 1])
        invariant
            cs@ == s@,
            n == cs@.len(),
            i <= j <= n,
            trim_start(s@) == s@.skip(i as int),
            trim_end(s@.skip(i as int)) == trim_end(s@.subrange(i as int, j as int)),
        decreases j - i,
    {
        assert(s@.subrange(i as int, j as int).drop_last() == s@.subrange(i as int, j - 1));
        j -= 1;
    }
    assert(s@.skip(i as int) == s@.subrange(i as int, n as int));
    string_from_range(&cs, i, j)
}

/// The number of maximal runs of non-white-space characters in `s`.
pub open spec fn word_count(s: Seq<char>) -> nat
    decreases s.len(),
{
    if s.len() == 0 {
        0
    } else {
        let starts_word = !is_white_space(s.last()) && (s.len() == 1 || is_white_space(
            s[s.len() - 2],
        ));
        word_count(s.drop_last()) + if starts_word {
            1nat
        } else {
            0nat
        }
    }
}

proof fn lemma_word_count_le_len(s: Seq<char>)
    ensures
        word_count(s) <= s.len(),
    decreases s.len(),
{
    if s.len() > 0 {
        lemma_word_count_le_len(s.drop_last());
    }
}

/// The token count of a text: its number of white-space separated words,
/// saturated at `u32::MAX`.
pub open spec fn token_count(s: Seq<char>) -> u32 {
    if word_count(s) > u32::MAX {
        u32::MAX
    } else {
        word_count(s) as u32
    }
}

/// Counts the white-space separated words of `input` (saturating at `u32::MAX`).
pub fn count_tokens(input: &str) -> (r: u32)
    ensures
        r == token_count(input@),
{
    let cs = chars_of(input);
    let mut count: usize = 0;
    let mut prev_ws = true;
    let mut i: usize = 0;
    while i < cs.len()
        invariant
            cs@ == input@,
            i <= cs@.len(),
            count == word_count(input@.take(i as int)),
            prev_ws == (i == 0 || is_white_space(input@[i - 1])),
        decreases cs.len() - i,
    {
        let c = cs[i];
        let ws = is_whitespace(c);
        proof {
            let t = input@.take(i + 1);
            assert(t.drop_last() == input@.take(i as int));
            lemma_word_count_le_len(input@.take(i as int));
        }
        if !ws && prev_ws {
            count += 1;
        }
        prev_ws = ws;
        i += 1;
    }
    assert(input@.take(cs.len() as int) == input@);
    if count > u32::MAX as usize {
        u32::MAX
    } else {
        count as u32
    }
}

/// The pieces in which a response is streamed, scanned from `start` with the
/// cursor at `idx`: a word is cut at the first white-space character that
/// follows it, and that character is sent as a piece of its own.
pub open spec fn pieces_from(s: Seq<char>, start: int, idx: int) -> Seq<Seq<char>>
    decreases s.len() - idx,
{
    if idx >= s.len() {
        if start < s.len() {
            seq![s.subrange(start, s.len() as int)]
        } else {
            seq![]
        }
    } else if is_white_space(s[idx]) && idx > start {
        seq![s.subrange(start, idx), seq![s[idx]]] + pieces_from(s, idx + 1, idx + 1)
    } else {
        pieces_from(s, start, idx + 1)
    }
}

/// The pieces in which a response text is streamed: a single empty piece for
/// an empty text.
pub open spec fn stream_pieces_of(s: Seq<char>) -> Seq<Seq<char>> {
    if s.len() == 0 {
        seq![Seq::empty()]
    } else {
        pieces_from(s, 0, 0)
    }
}

/// Concatenating the pieces scanned from `start` gives back `s[start..]`.
pub proof fn lemma_pieces_from_flatten(s: Seq<char>, start: int, idx: int)
    requires
        0 <= start <= idx <= s.len(),
    ensures
        pieces_from(s, start, idx).flatten() == s.subrange(start, s.len() as int),
    decreases s.len() - idx,
{
    if idx >= s.len() {
        if start < s.len() {
            let p = seq![s.subrange(start, s.len() as int)];
            p.lemma_flatten_singleton();
        } else {
            assert(s.subrange(start, s.len() as int) == Seq::<char>::empty());
        }
    } else if is_white_space(s[idx]) && idx > start {
        let head = seq![s.subrange(start, idx), seq![s[idx]]];
        let rest = pieces_from(s, idx + 1, idx + 1);
        lemma_pieces_from_flatten(s, idx + 1, idx + 1);
        vstd::seq_lib::lemma_flatten_concat(head, rest);
        let one = seq![s.subrange(start, idx)];
        one.lemma_flatten_singleton();
        one.lemma_flatten_push(seq![s[idx]]);
        assert(one.push(seq![s[idx]]) == head);
        assert(s.subrange(start, s.len() as int) == s.subrange(start, idx) + seq![s[idx]]
            + s.subrange(idx + 1, s.len() as int));
    } else {
        lemma_pieces_from_flatten(s, start, idx + 1);
    }
}

/// Streaming a text loses and adds nothing: its pieces concatenate to it.
pub proof fn lemma_stream_pieces_concat(s: Seq<char>)
    ensures
        stream_pieces_of(s).flatten() == s,
{
    if s.len() == 0 {
        let p = seq![Seq::<char>::empty()];
        p.lemma_flatten_singleton();
    } else {
        lemma_pieces_from_flatten(s, 0, 0);
        assert(s.subrange(0, s.len() as int) == s);
    }
}

/// The views of a vector of strings.
pub open spec fn views(v: Seq<String>) -> Seq<Seq<char>> {
    v.map_values(|x: String| x@)
}

/// Splits `input` into the pieces in which it is streamed to a client:
/// words, each white-space character that ends a word, and the rest.
pub fn stream_pieces(input: &str) -> (r: Vec<String>)
    ensures
        views(r@) == stream_pieces_of(input@),
{
    let cs = chars_of(input);
    let n = cs.len();
    if n == 0 {
        let mut v: Vec<String> = Vec::new();
        v.push(String::new());
        assert(views(v@) == seq![Seq::<char>::empty()]);
        return v;
    }
    let mut pieces: Vec<String> = Vec::new();
    let mut start: usize = 0;
    let mut idx: usize = 0;
    while idx < n
        invariant
            cs@ == input@,
            n == cs@.len(),
            n > 0,
            start <= idx <= n,
            views(pieces@) + pieces_from(input@, start as int, idx as int) == pieces_from(
                input@,
                0,
                0,
            ),
        decreases n - idx,
    {
        let c = cs[idx];
        if is_whitespace(c) && idx > start {
            let word = string_from_range(&cs, start, idx);
            let sep = string_from_range(&cs, idx, idx + 1);
            proof {
                assert(sep@ == seq![input@[idx as int]]);
                let old_views = views(pieces@);
                assert(views(pieces@.push(word).push(sep)) == old_views + seq![word@, sep@]);
                assert(old_views + (seq![word@, sep@] + pieces_from(
                    input@,
                    idx + 1,
                    idx + 1,
                )) == old_views + seq![word@, sep@] + pieces_from(input@, idx + 1, idx + 1));
            }
            pieces.push(word);
            pieces.push(sep);
            start = idx + 1;
        }
        idx += 1;
    }
    if start < n {
        let last = string_from_range(&cs, start, n);
        proof {
            assert(views(pieces@.push(last)) == views(pieces@) + seq![last@]);
        }
        pieces.push(last);
    } else {
        assert(views(pieces@) + Seq::<Seq<char>>::empty() == views(pieces@));
    }
    pieces
}


/// The text `String::from_utf8_lossy` decodes from `bytes` (invalid
/// sequences become U+FFFD).
pub uninterp spec fn lossy_utf8(bytes: Seq<u8>) -> Seq<char>;

/// Calls `String::from_utf8_lossy`; its result is named by `lossy_utf8`.
#[verifier::external_body]
pub fn decode_utf8_lossy(bytes: &[u8]) -> (r: String)
    ensures
        r@ == lossy_utf8(bytes@),
{
    String::from_utf8_lossy(bytes).into_owned()
}

/// The decimal digits of `n`, without leading zeros (`"0"` for zero).
pub open spec fn decimal(n: nat) -> Seq<char>
    decreases n,
{
    if n < 10 {
        seq![digit_char(n)]
    } else {
        decimal(n / 10) + seq![digit_char(n % 10)]
    }
}

/// The character of the digit `d`.
pub open spec fn digit_char(d: nat) -> char {
    ((48 + d) as u8) as char
}

/// The decimal form of `n`, as `{}` formats it.
pub fn decimal_string(n: u64) -> (r: String)
    ensures
        r@ == decimal(n as nat),
{
    let mut v: Vec<char> = Vec::new();
    let mut m: u64 = n;
    while m >= 10
        invariant
            decimal(n as nat) == decimal(m as nat) + v@.reverse(),
        decreases m,
    {
        let d = m % 10;
        let c = (48u8 + d as u8) as char;
        proof {
            assert(decimal(m as nat) == decimal((m / 10) as nat) + seq![digit_char((m % 10) as nat)]);
            assert(v@.push(c).reverse() == seq![c] + v@.reverse());
        }
        v.push(c);
        m = m / 10;
    }
    let c = (48u8 + m as u8) as char;
    proof {
        assert(v@.push(c).reverse() == seq![c] + v@.reverse());
    }
    v.push(c);
    let mut out = String::new();
    let mut i = v.len();
    while i > 0
        invariant
            i <= v@.len(),
            out@ == v@.reverse().take(v@.len() - i),
        decreases i,
    {
        proof {
            assert(v@.reverse().take(v@.len() - i + 1) == v@.reverse().take(v@.len() - i).push(
                v@[i - 1],
            ));
        }
        push_char(&mut out, v[i - 1]);
        i -= 1;
    }
    assert(v@.reverse().take(v@.len() as int) == v@.reverse());
    out
}

/// `s` with every occurrence of `pat` (found left to right, without
/// overlapping) replaced by `rep`, as `str::replace` does.
pub open spec fn replace_all(s: Seq<char>, pat: Seq<char>, rep: Seq<char>) -> Seq<char>
    decreases s.len(),
{
    if pat.len() == 0 || s.len() < pat.len() {
        s
    } else if s.take(pat.len() as int) == pat {
        rep + replace_all(s.skip(pat.len() as int), pat, rep)
    } else {
        seq![s[0]] + replace_all(s.skip(1), pat, rep)
    }
}

/// Whether `cs[at..]` starts with `pat`.
fn matches_at(cs: &Vec<char>, at: usize, pat: &Vec<char>) -> (r: bool)
    requires
        at <= cs@.len(),
    ensures
        r == (pat@.len() <= cs@.len() - at && cs@.skip(at as int).take(pat@.len() as int) == pat@),
{
    let n = cs.len();
    if pat.len() > n - at {
        return false;
    }
    let mut k: usize = 0;
    while k < pat.len()
        invariant
            n == cs@.len(),
            at <= cs@.len(),
            pat@.len() <= cs@.len() - at,
            k <= pat@.len(),
            forall|j: int| 0 <= j < k ==> cs@[at + j] == pat@[j],
        decreases pat.len() - k,
    {
        if cs[at + k] != pat[k] {
            assert(cs@.skip(at as int).take(pat@.len() as int)[k as int] != pat@[k as int]);
            return false;
        }
        k += 1;
    }
    assert(cs@.skip(at as int).take(pat@.len() as int) =~= pat@);
    true
}

/// Replaces every occurrence of a non-empty `pat` in `s` by `rep`.
pub fn replace(s: &str, pat: &str, rep: &str) -> (r: String)
    requires
        pat@.len() > 0,
    ensures
        r@ == replace_all(s@, pat@, rep@),
{
    let cs = chars_of(s);
    let pc = chars_of(pat);
    let mut out = String::new();
    let mut i: usize = 0;
    assert(s@.skip(0) == s@);
    while i < cs.len()
        invariant
            cs@ == s@,
            pc@ == pat@,
            pat@.len() > 0,
            i <= cs@.len(),
            out@ + replace_all(s@.skip(i as int), pat@, rep@) == replace_all(s@, pat@, rep@),
        decreases cs.len() - i,
    {
        let ghost rest = s@.skip(i as int);
        if matches_at(&cs, i, &pc) {
            proof {
                assert(rest.skip(pat@.len() as int) == s@.skip(i + pat@.len()));
                assert(out@ + (rep@ + replace_all(rest.skip(pat@.len() as int), pat@, rep@)) == out@
                    + rep@ + replace_all(rest.skip(pat@.len() as int), pat@, rep@));
            }
            out.append(rep);
            i = i + pc.len();
        } else {
            proof {
                assert(rest.skip(1) == s@.skip(i + 1));
                assert(rest[0] == s@[i as int]);
                assert(out@ + (seq![rest[0]] + replace_all(rest.skip(1), pat@, rep@)) == out@.push(
                    rest[0],
                ) + replace_all(rest.skip(1), pat@, rep@));
            }
            push_char(&mut out, cs[i]);
            i = i + 1;
        }
    }
    assert(s@.skip(cs.len() as int) == Seq::<char>::empty());
    assert(out@ + Seq::<char>::empty() == out@);
    out
}

} // verus!
