use vstd::prelude::*;
use vstd::string::StrSliceExecFns;

verus! {

/// `a` comes no later than `b` in the lexicographic order of their
/// characters (each compared by its scalar value), which is the order of
/// Rust's `str`.
pub open spec fn lex_le(a: Seq<char>, b: Seq<char>) -> bool
    decreases a.len(),
{
    if a.len() == 0 {
        true
    } else if b.len() == 0 {
        false
    } else if a[0] != b[0] {
        (a[0] as int) < (b[0] as int)
    } else {
        lex_le(a.drop_first(), b.drop_first())
    }
}

/// Two texts are always ordered one way or the other.
pub proof fn lemma_lex_le_total(a: Seq<char>, b: Seq<char>)
    ensures
        lex_le(a, b) || lex_le(b, a),
    decreases a.len(),
{
    if a.len() > 0 && b.len() > 0 {
        if a[0] == b[0] {
            lemma_lex_le_total(a.drop_first(), b.drop_first());
        } else {
            assert((a[0] as int) != (b[0] as int));
        }
    }
}

/// The order is transitive.
pub proof fn lemma_lex_le_trans(a: Seq<char>, b: Seq<char>, c: Seq<char>)
    requires
        lex_le(a, b),
        lex_le(b, c),
    ensures
        lex_le(a, c),
    decreases a.len(),
{
    if a.len() > 0 && b.len() > 0 && c.len() > 0 && a[0] == b[0] && b[0] == c[0] {
        lemma_lex_le_trans(a.drop_first(), b.drop_first(), c.drop_first());
    }
}

/// A shared prefix does not change the order.
proof fn lemma_lex_le_skip(a: Seq<char>, b: Seq<char>, i: int)
    requires
        0 <= i <= a.len(),
        i <= b.len(),
        a.subrange(0, i) == b.subrange(0, i),
    ensures
        lex_le(a, b) == lex_le(a.skip(i), b.skip(i)),
    decreases i,
{
    if i > 0 {
        assert(a[0] == a.subrange(0, i)[0]);
        assert(b[0] == b.subrange(0, i)[0]);
        assert(a.drop_first().subrange(0, i - 1) =~= a.subrange(0, i).drop_first());
        assert(b.drop_first().subrange(0, i - 1) =~= b.subrange(0, i).drop_first());
        lemma_lex_le_skip(a.drop_first(), b.drop_first(), i - 1);
        assert(a.drop_first().skip(i - 1) =~= a.skip(i));
        assert(b.drop_first().skip(i - 1) =~= b.skip(i));
    } else {
        assert(a.skip(0) =~= a);
        assert(b.skip(0) =~= b);
    }
}

/// The order of `lex_le` is that of Rust's `str`: a text comes no later
/// than any text that it begins, and of two texts that agree up to a
/// position and differ there, the one with the smaller character there
/// comes first and the other does not.
pub proof fn lex_le_orders_by_first_difference(a: Seq<char>, b: Seq<char>, k: int)
    ensures
        lex_le(a, a + b),
        0 <= k < a.len() && k < b.len() && a.take(k) == b.take(k) && (a[k] as int) < (b[k] as int)
            ==> lex_le(a, b) && !lex_le(b, a),
{
    let ab = a + b;
    assert(ab.subrange(0, a.len() as int) =~= a.subrange(0, a.len() as int));
    lemma_lex_le_skip(a, ab, a.len() as int);
    assert(a.skip(a.len() as int).len() == 0);
    if 0 <= k < a.len() && k < b.len() && a.take(k) == b.take(k) && (a[k] as int) < (b[k] as int) {
        assert(a.subrange(0, k) =~= a.take(k));
        assert(b.subrange(0, k) =~= b.take(k));
        lemma_lex_le_skip(a, b, k);
        lemma_lex_le_skip(b, a, k);
        assert(a.skip(k)[0] == a[k]);
        assert(b.skip(k)[0] == b[k]);
    }
}

/// Whether `a` comes no later than `b` in the order of `lex_le`.
pub fn str_lex_le(a: &str, b: &str) -> (r: bool)
    ensures
        r == lex_le(a@, b@),
{
    let la = a.unicode_len();
    let lb = b.unicode_len();
    let mut i: usize = 0;
    while i < la && i < lb
        invariant
            la == a@.len(),
            lb == b@.len(),
            0 <= i <= la,
            i <= lb,
            a@.subrange(0, i as int) == b@.subrange(0, i as int),
        decreases la - i,
    {
        let ca = a.get_char(i);
        let cb = b.get_char(i);
        if ca != cb {
            proof {
                lemma_lex_le_skip(a@, b@, i as int);
                assert(a@.skip(i as int)[0] == ca);
                assert(b@.skip(i as int)[0] == cb);
            }
            return ca < cb;
        }
        assert(a@.subrange(0, i + 1) =~= a@.subrange(0, i as int).push(ca));
        assert(b@.subrange(0, i + 1) =~= b@.subrange(0, i as int).push(cb));
        i += 1;
    }
    proof {
        lemma_lex_le_skip(a@, b@, i as int);
    }
    la <= lb
}


/// A control character: Unicode general category Cc, the code points
/// U+0000 to U+001F and U+007F to U+009F (as `char::is_control` reads it).
pub open spec fn is_control(c: char) -> bool {
    (c as int) <= 0x1f || (0x7f <= (c as int) && (c as int) <= 0x9f)
}

/// A white space character: one with the Unicode property White_Space (as
/// `char::is_whitespace` and `str::trim` read it).
pub open spec fn is_white_space(c: char) -> bool {
    let x = c as int;
    ||| (0x9 <= x && x <= 0xd)
    ||| x == 0x20
    ||| x == 0x85
    ||| x == 0xa0
    ||| x == 0x1680
    ||| (0x2000 <= x && x <= 0x200a)
    ||| x == 0x2028
    ||| x == 0x2029
    ||| x == 0x202f
    ||| x == 0x205f
    ||| x == 0x3000
}

/// Whether `c` is a control character (see `is_control`).
pub fn char_is_control(c: char) -> (r: bool)
    ensures
        r == is_control(c),
{
    let x = c as u32;
    x <= 0x1f || (0x7f <= x && x <= 0x9f)
}

/// Whether `c` is white space (see `is_white_space`).
pub fn char_is_white_space(c: char) -> (r: bool)
    ensures
        r == is_white_space(c),
{
    let x = c as u32;
    (0x9 <= x && x <= 0xd) || x == 0x20 || x == 0x85 || x == 0xa0 || x == 0x1680 || (0x2000 <= x
        && x <= 0x200a) || x == 0x2028 || x == 0x2029 || x == 0x202f || x == 0x205f || x == 0x3000
}

/// A character that is not a control character.
pub open spec fn not_control() -> spec_fn(char) -> bool {
    |c: char| !is_control(c)
}

/// The text without its control characters.
pub open spec fn without_controls(s: Seq<char>) -> Seq<char> {
    s.filter(not_control())
}

/// The text without its leading white space.
pub open spec fn trim_start(s: Seq<char>) -> Seq<char>
    decreases s.len(),
{
    if s.len() > 0 && is_white_space(s[0]) {
        trim_start(s.drop_first())
    } else {
        s
    }
}

/// The text without its trailing white space.
pub open spec fn trim_end(s: Seq<char>) -> Seq<char>
    decreases s.len(),
{
    if s.len() > 0 && is_white_space(s.last()) {
        trim_end(s.drop_last())
    } else {
        s
    }
}

/// The text without leading and trailing white space, as `str::trim` gives it.
pub open spec fn trim(s: Seq<char>) -> Seq<char> {
    trim_end(trim_start(s))
}

proof fn lemma_trim_start_is_suffix(s: Seq<char>)
    ensures
        exists|k: int| 0 <= k <= s.len() && trim_start(s) == s.skip(k),
        trim_start(s).len() > 0 ==> !is_white_space(trim_start(s)[0]),
    decreases s.len(),
{
    if s.len() > 0 && is_white_space(s[0]) {
        lemma_trim_start_is_suffix(s.drop_first());
        let k = choose|k: int| 0 <= k <= s.drop_first().len() && trim_start(s.drop_first()) == s.drop_first().skip(k);
        assert(s.drop_first().skip(k) =~= s.skip(k + 1));
    } else {
        assert(s.skip(0) =~= s);
    }
}

proof fn lemma_trim_end_is_prefix(s: Seq<char>)
    ensures
        exists|m: int| 0 <= m <= s.len() && trim_end(s) == s.take(m),
        trim_end(s).len() > 0 ==> !is_white_space(trim_end(s).last()),
    decreases s.len(),
{
    if s.len() > 0 && is_white_space(s.last()) {
        lemma_trim_end_is_prefix(s.drop_last());
        let m = choose|m: int| 0 <= m <= s.drop_last().len() && trim_end(s.drop_last()) == s.drop_last().take(m);
        assert(s.drop_last().take(m) =~= s.take(m));
    } else {
        assert(s.take(s.len() as int) =~= s);
    }
}

/// Trimming keeps the first character of a text that does not start with
/// white space.
proof fn lemma_trim_end_keeps_first(s: Seq<char>)
    requires
        trim_end(s).len() > 0,
    ensures
        trim_end(s)[0] == s[0],
{
    lemma_trim_end_is_prefix(s);
}

/// A pasted link holds no control character and neither starts nor ends
/// with white space.
pub proof fn sanitized_text_is_clean(text: Seq<char>)
    ensures
        forall|i: int| 0 <= i < trim(without_controls(text)).len() ==> !is_control(#[trigger] trim(without_controls(text))[i]),
        trim(without_controls(text)).len() > 0 ==> !is_white_space(trim(without_controls(text))[0]),
        trim(without_controls(text)).len() > 0 ==> !is_white_space(trim(without_controls(text)).last()),
{
    broadcast use vstd::seq_lib::group_filter_ensures;

    let f = without_controls(text);
    let t = trim_start(f);
    let r = trim_end(t);
    lemma_trim_start_is_suffix(f);
    lemma_trim_end_is_prefix(t);
    let k = choose|k: int| 0 <= k <= f.len() && t == f.skip(k);
    let m = choose|m: int| 0 <= m <= t.len() && r == t.take(m);
    assert forall|i: int| 0 <= i < r.len() implies !is_control(#[trigger] r[i]) by {
        assert(r[i] == f[i + k]);
        assert(not_control()(f[i + k]));
    }
    if r.len() > 0 {
        lemma_trim_end_keeps_first(t);
    }
}

/// Appends one character (`String::push`).
#[verifier::external_body]
fn push_char(s: &mut String, c: char)
    ensures
        final(s)@ == old(s)@.push(c),
{
    s.push(c);
}

/// The text that a paste offers as a download link: the clipboard text
/// without its control characters (line breaks among them, so its lines
/// are joined) and without leading and trailing white space.
pub fn sanitize_clipboard_text(text: &str) -> (r: String)
    ensures
        r@ == trim(without_controls(text@)),
{
    let mut kept: Vec<char> = Vec::new();
    for c in it: text.chars()
        invariant
            it.seq() == text@,
            kept@ == it.seq().take(it.index() as int).filter(not_control()),
    {
        let ghost k = it.index() as int;
        let ghost prev = text@.take(k).filter(not_control());
        proof {
            assert(text@.take(k + 1).drop_last() =~= text@.take(k));
            assert(text@.take(k + 1).last() == c);
            assert(text@.take(k + 1).filter(not_control()) == if !is_control(c) {
                prev.push(c)
            } else {
                prev
            }) by {
                reveal(Seq::filter);
            }
        }
        if !char_is_control(c) {
            kept.push(c);
        }
    }
    assert(text@.take(text@.len() as int) =~= text@);
    let ghost s = kept@;
    let n = kept.len();
    let mut start: usize = 0;
    assert(s.skip(0) =~= s);
    while start < n && char_is_white_space(kept[start])
        invariant
            s == kept@,
            n == s.len(),
            0 <= start <= n,
            trim_start(s) == trim_start(s.skip(start as int)),
        decreases n - start,
    {
        assert(s.skip(start as int).drop_first() =~= s.skip(start + 1));
        start += 1;
    }
    assert(trim_start(s) == s.skip(start as int));
    let ghost t = s.skip(start as int);
    let mut end: usize = n;
    assert(t.take(n - start) =~= t);
    while end > start && char_is_white_space(kept[end - 1])
        invariant
            s == kept@,
            n == s.len(),
            0 <= start <= end <= n,
            t == s.skip(start as int),
            trim_end(t) == trim_end(t.take(end - start)),
        decreases end - start,
    {
        assert(t.take(end - start).drop_last() =~= t.take(end - 1 - start));
        end -= 1;
    }
    assert(trim_end(t) == t.take(end - start));
    let mut r = String::new();
    let mut i: usize = start;
    while i < end
        invariant
            s == kept@,
            n == s.len(),
            start <= i <= end <= n,
            r@ == s.subrange(start as int, i as int),
        decreases end - i,
    {
        push_char(&mut r, kept[i]);
        assert(r@ =~= s.subrange(start as int, i + 1));
        i += 1;
    }
    assert(r@ =~= t.take(end - start));
    r
}

/// The text `o` holds, or `fallback` where it is absent.
pub open spec fn text_or(o: Option<String>, fallback: Seq<char>) -> Seq<char> {
    match o {
        Some(s) => s@,
        None => fallback,
    }
}

/// The codecs of a format as shown beside it: `(video, audio)`, with `NONE`
/// for a codec that is absent.
pub fn codec_label(video_codec: &Option<String>, audio_codec: &Option<String>) -> (r: String)
    ensures
        r@ == "("@ + text_or(*video_codec, "NONE"@) + ", "@ + text_or(*audio_codec, "NONE"@) + ")"@,
{
    let mut r = String::new();
    r.append("(");
    match video_codec {
        Some(v) => r.append(v.as_str()),
        None => r.append("NONE"),
    }
    r.append(", ");
    match audio_codec {
        Some(a) => r.append(a.as_str()),
        None => r.append("NONE"),
    }
    r.append(")");
    assert(r@ =~= "("@ + text_or(*video_codec, "NONE"@) + ", "@ + text_or(*audio_codec, "NONE"@) + ")"@);
    r
}

/// A `::` starts at position `i` of the text.
pub open spec fn separator_at(t: Seq<char>, i: int) -> bool {
    0 <= i && i + 1 < t.len() && t[i] == ':' && t[i + 1] == ':'
}

/// The text holds a `::`.
pub open spec fn has_separator(t: Seq<char>) -> bool {
    exists|i: int| separator_at(t, i)
}

/// The last of the parts that splitting the text at each `::` gives, where
/// the text is searched for `::` from the left and a found `::` is skipped
/// whole (as `str::split` does).
pub open spec fn last_segment(t: Seq<char>) -> Seq<char>
    decreases t.len(),
{
    if t.len() < 2 || !has_separator(t) {
        t
    } else if t[0] == ':' && t[1] == ':' {
        last_segment(t.skip(2))
    } else {
        last_segment(t.skip(1))
    }
}

/// Where no `::` starts before position `m`, the last part is that of the
/// text from `m` on, or the whole text if no `::` follows.
proof fn lemma_last_segment_skip(t: Seq<char>, m: int)
    requires
        0 <= m <= t.len(),
        forall|k: int| 0 <= k < m ==> !separator_at(t, k),
    ensures
        last_segment(t) == if has_separator(t.skip(m)) {
            last_segment(t.skip(m))
        } else {
            t
        },
    decreases m,
{
    if m == 0 {
        assert(t.skip(0) =~= t);
    } else {
        let u = t.skip(1);
        assert forall|k: int| 0 <= k < m - 1 implies !separator_at(u, k) by {
            assert(!separator_at(t, k + 1));
        }
        lemma_last_segment_skip(u, m - 1);
        assert(u.skip(m - 1) =~= t.skip(m));
        if has_separator(t.skip(m)) {
            let k = choose|k: int| separator_at(t.skip(m), k);
            assert(separator_at(t, k + m));
            assert(separator_at(u, k + m - 1));
            assert(!separator_at(t, 0));
        } else if has_separator(t) {
            let k = choose|k: int| separator_at(t, k);
            if k < m {
                assert(false);
            } else {
                assert(separator_at(t.skip(m), k - m));
            }
        }
    }
}

/// The last part of a type path: what follows its last `::` (see
/// `last_segment`).
pub fn last_path_segment(name: &str) -> (r: &str)
    ensures
        r@ == last_segment(name@),
{
    let ghost s = name@;
    let mut chars: Vec<char> = Vec::new();
    for c in it: name.chars()
        invariant
            it.seq() == name@,
            chars@ == it.seq().take(it.index() as int),
    {
        chars.push(c);
    }
    assert(chars@ =~= s);
    let n = chars.len();
    let mut start: usize = 0;
    let mut i: usize = 0;
    while n > 0 && i < n - 1
        invariant
            chars@ == s,
            n == s.len(),
            0 <= start <= i <= n,
            last_segment(s) == last_segment(s.skip(start as int)),
            forall|k: int| start <= k < i ==> !separator_at(s, k),
        decreases n - i,
    {
        if chars[i] == ':' && chars[i + 1] == ':' {
            proof {
                let t = s.skip(start as int);
                assert forall|k: int| 0 <= k < i - start implies !separator_at(t, k) by {
                    assert(!separator_at(s, k + start));
                }
                assert(separator_at(t.skip(i - start), 0));
                lemma_last_segment_skip(t, i - start);
                assert(t.skip(i - start) =~= s.skip(i as int));
                assert(s.skip(i as int).skip(2) =~= s.skip(i + 2));
            }
            i += 2;
            start = i;
        } else {
            i += 1;
        }
    }
    proof {
        let t = s.skip(start as int);
        assert(!has_separator(t)) by {
            if has_separator(t) {
                let k = choose|k: int| separator_at(t, k);
                assert(separator_at(s, k + start));
            }
        }
    }
    name.substring_char(start, n)
}

/// The text with each pair of line feeds replaced by one, pairs being taken
/// from the left without overlap (as `str::replace("\n\n", "\n")` does).
pub open spec fn collapse_blank_lines(s: Seq<char>) -> Seq<char>
    decreases s.len(),
{
    if s.len() >= 2 && s[0] == '\n' && s[1] == '\n' {
        seq!['\n'] + collapse_blank_lines(s.skip(2))
    } else if s.len() > 0 {
        seq![s[0]] + collapse_blank_lines(s.skip(1))
    } else {
        s
    }
}

/// A description as the download dialog shows it: each blank line between
/// paragraphs dropped (see `collapse_blank_lines`).
pub fn description_preview(description: &str) -> (r: String)
    ensures
        r@ == collapse_blank_lines(description@),
{
    let mut chars: Vec<char> = Vec::new();
    for c in it: description.chars()
        invariant
            it.seq() == description@,
            chars@ == it.seq().take(it.index() as int),
    {
        chars.push(c);
    }
    let ghost s = description@;
    assert(chars@ =~= s);
    let n = chars.len();
    let mut r = String::new();
    let mut i: usize = 0;
    while i < n
        invariant
            chars@ == s,
            n == s.len(),
            0 <= i <= n,
            r@ + collapse_blank_lines(s.skip(i as int)) == collapse_blank_lines(s),
        decreases n - i,
    {
        let ghost t = s.skip(i as int);
        if i + 1 < n && chars[i] == '\n' && chars[i + 1] == '\n' {
            push_char(&mut r, '\n');
            assert(t.skip(2) =~= s.skip(i + 2));
            assert(r@ + collapse_blank_lines(s.skip(i + 2)) =~= collapse_blank_lines(s)) by {
                assert(collapse_blank_lines(t) == seq!['\n'] + collapse_blank_lines(t.skip(2)));
            }
            i += 2;
        } else {
            push_char(&mut r, chars[i]);
            assert(t.skip(1) =~= s.skip(i + 1));
            assert(r@ + collapse_blank_lines(s.skip(i + 1)) =~= collapse_blank_lines(s)) by {
                assert(collapse_blank_lines(t) == seq![s[i as int]] + collapse_blank_lines(t.skip(1)));
            }
            i += 1;
        }
    }
    assert(s.skip(n as int) =~= Seq::<char>::empty());
    assert(r@ + Seq::<char>::empty() =~= r@);
    r
}

} // verus!
