//! Byte-level views of strings and the string operations the line store is
//! built from. Columns are byte offsets into UTF-8 text, so every contract
//! here speaks of the UTF-8 encoding of a string.
use vstd::prelude::*;
use vstd::string::*;
use vstd::utf8::*;

verus! {

broadcast use vstd::utf8::encode_utf8_valid_utf8;

/// The UTF-8 bytes of a character sequence.
pub open spec fn utf8(s: Seq<char>) -> Seq<u8> {
    encode_utf8(s)
}

/// The newline byte.
pub const NEWLINE: u8 = 10;

/// The carriage-return byte.
pub const CARRIAGE_RETURN: u8 = 13;

/// `i` is an offset at which `b` may be cut without splitting a character:
/// the end, or a position whose byte starts a character.
pub open spec fn on_boundary(b: Seq<u8>, i: int) -> bool {
    i == b.len() || (0 <= i < b.len() && !is_continuation_byte(b[i]))
}

/// Encoding distributes over concatenation.
pub proof fn lemma_utf8_concat(a: Seq<char>, b: Seq<char>)
    ensures
        utf8(a + b) == utf8(a) + utf8(b),
    decreases a.len(),
{
    if a.len() == 0 {
        assert(a + b =~= b);
        assert(utf8(a) + utf8(b) =~= utf8(b));
    } else {
        assert((a + b).drop_first() =~= a.drop_first() + b);
        lemma_utf8_concat(a.drop_first(), b);
        assert((a + b)[0] == a[0]);
        assert(utf8(a + b) =~= utf8(a) + utf8(b));
    }
}

proof fn lemma_boundary(b: Seq<u8>, i: int)
    requires
        valid_utf8(b),
        on_boundary(b, i),
    ensures
        is_char_boundary(b, i),
{
    if i == b.len() {
        is_char_boundary_start_end_of_seq(b);
    } else {
        is_char_boundary_iff_not_is_continuation_byte(b, i);
    }
}

proof fn lemma_ascii_byte(x: u8)
    requires
        x < 0x80,
    ensures
        !is_continuation_byte(x),
        is_leading_byte_width_1(x),
{
    assert(!is_continuation_byte(x) && is_leading_byte_width_1(x)) by (bit_vector)
        requires
            x < 0x80,
    ;
}

/// Valid UTF-8 may be cut at its start.
pub proof fn lemma_start_boundary(s: Seq<char>)
    ensures
        on_boundary(utf8(s), 0),
{
    let b = utf8(s);
    is_char_boundary_start_end_of_seq(b);
    if b.len() > 0 {
        is_char_boundary_iff_not_is_continuation_byte(b, 0);
    }
}

/// In valid UTF-8 the byte after an ASCII byte starts a character.
pub proof fn lemma_after_ascii(b: Seq<u8>, i: int)
    requires
        valid_utf8(b),
        0 <= i < b.len(),
        b[i] < 0x80,
    ensures
        on_boundary(b, i + 1),
{
    is_char_boundary_iff_not_is_continuation_byte(b, i);
    lemma_ascii_byte(b[i]);
    valid_utf8_split(b, i);
    let c = b.subrange(i, b.len() as int);
    if i + 1 < b.len() {
        assert(c[0] == b[i]);
        lemma_ascii_byte(c[0]);
        reveal_with_fuel(is_char_boundary, 2);
        assert(is_char_boundary(c, 1));
        is_char_boundary_iff_not_is_continuation_byte(c, 1);
        assert(c[1] == b[i + 1]);
    }
}

/// An owned copy of the bytes `[start, end)` of `s`.
pub fn slice_bytes(s: &str, start: usize, end: usize) -> (r: String)
    requires
        start <= end <= s.spec_bytes().len(),
        on_boundary(s.spec_bytes(), start as int),
        on_boundary(s.spec_bytes(), end as int),
    ensures
        utf8(r@) == s.spec_bytes().subrange(start as int, end as int),
{
    let ghost b = s.spec_bytes();
    proof {
        lemma_boundary(b, end as int);
    }
    let (a, _) = s.split_at(end);
    let ghost ab = a.spec_bytes();
    assert(ab =~= b.subrange(0, end as int));
    proof {
        valid_utf8_split(b, end as int);
        if start < end {
            assert(ab[start as int] == b[start as int]);
        }
        assert(on_boundary(ab, start as int));
        lemma_boundary(ab, start as int);
    }
    let (_, c) = a.split_at(start);
    assert(c.spec_bytes() =~= b.subrange(start as int, end as int));
    c.to_owned()
}

/// `a` followed by `b`.
pub fn concat(a: &str, b: &str) -> (r: String)
    ensures
        utf8(r@) == a.spec_bytes() + b.spec_bytes(),
{
    let r = a.to_owned().concat(b);
    proof {
        lemma_utf8_concat(a@, b@);
    }
    r
}

/// The byte views of a sequence of strings.
pub open spec fn views(v: Seq<String>) -> Seq<Seq<u8>> {
    v.map_values(|s: String| utf8(s@))
}

/// `b` cut at every `sep` byte; the separators themselves are dropped.
/// There is always at least one piece: the text after the last separator.
pub open spec fn split_on(b: Seq<u8>, sep: u8) -> Seq<Seq<u8>>
    decreases b.len(),
{
    if b.len() == 0 {
        seq![Seq::empty()]
    } else {
        let rest = split_on(b.drop_last(), sep);
        if b.last() == sep {
            rest.push(Seq::empty())
        } else {
            rest.update(rest.len() - 1, rest.last().push(b.last()))
        }
    }
}

/// `parts` with `sep` between each two neighbours.
pub open spec fn join(parts: Seq<Seq<u8>>, sep: Seq<u8>) -> Seq<u8>
    decreases parts.len(),
{
    if parts.len() == 0 {
        Seq::empty()
    } else if parts.len() == 1 {
        parts[0]
    } else {
        join(parts.drop_last(), sep) + sep + parts.last()
    }
}

/// `s` without one trailing carriage return.
pub open spec fn strip_cr(s: Seq<u8>) -> Seq<u8> {
    if s.len() > 0 && s.last() == CARRIAGE_RETURN {
        s.drop_last()
    } else {
        s
    }
}

/// The lines of a text: the pieces between newlines, where a line that a
/// newline ends loses one trailing carriage return. Empty text has no lines;
/// text that ends in a newline has an empty last line.
pub open spec fn lines_of(b: Seq<u8>) -> Seq<Seq<u8>> {
    if b.len() == 0 {
        Seq::empty()
    } else {
        let s = split_on(b, NEWLINE);
        Seq::new(s.len(), |i: int| if i < s.len() - 1 { strip_cr(s[i]) } else { s[i] })
    }
}

/// No carriage return stands right before a newline.
pub open spec fn no_crlf(b: Seq<u8>) -> bool {
    forall|i: int| 0 <= i < b.len() - 1 ==> !(#[trigger] b[i] == CARRIAGE_RETURN && b[i + 1] == NEWLINE)
}

pub proof fn lemma_split_len(b: Seq<u8>, sep: u8)
    ensures
        split_on(b, sep).len() >= 1,
        split_on(b, sep).last().len() > 0 ==> b.len() > 0 && split_on(b, sep).last().last()
            == b.last(),
    decreases b.len(),
{
    if b.len() > 0 {
        lemma_split_len(b.drop_last(), sep);
    }
}

/// Joining the pieces of a split with the separator gives the text back.
pub proof fn lemma_join_split(b: Seq<u8>, sep: u8)
    ensures
        join(split_on(b, sep), seq![sep]) == b,
    decreases b.len(),
{
    if b.len() > 0 {
        let b0 = b.drop_last();
        let s0 = split_on(b0, sep);
        lemma_join_split(b0, sep);
        lemma_split_len(b0, sep);
        let s = split_on(b, sep);
        if b.last() == sep {
            assert(s.drop_last() =~= s0);
            assert(join(s, seq![sep]) =~= b);
        } else {
            let k = s0.len() - 1;
            if k == 0 {
                assert(join(s, seq![sep]) =~= b);
            } else {
                assert(s.drop_last() =~= s0.drop_last());
                assert(join(s0, seq![sep]) == join(s0.drop_last(), seq![sep]) + seq![sep]
                    + s0.last());
                assert(b =~= b0.push(b.last()));
                assert(join(s, seq![sep]) =~= b);
            }
        }
    }
}

/// Without a carriage return before a newline, no piece but the last of a
/// split on newlines ends in a carriage return.
proof fn lemma_split_no_cr(b: Seq<u8>)
    requires
        no_crlf(b),
    ensures
        forall|i: int|
            0 <= i < split_on(b, NEWLINE).len() - 1 ==> strip_cr(#[trigger] split_on(b, NEWLINE)[i])
                == split_on(b, NEWLINE)[i],
    decreases b.len(),
{
    if b.len() > 0 {
        let b0 = b.drop_last();
        assert(no_crlf(b0)) by {
            assert forall|i: int| 0 <= i < b0.len() - 1 implies !(#[trigger] b0[i] == CARRIAGE_RETURN && b0[i
                + 1] == NEWLINE) by {
                assert(b0[i] == b[i] && b0[i + 1] == b[i + 1]);
            }
        }
        lemma_split_no_cr(b0);
        lemma_split_len(b0, NEWLINE);
        let s0 = split_on(b0, NEWLINE);
        let s = split_on(b, NEWLINE);
        if b.last() == NEWLINE {
            assert forall|i: int| 0 <= i < s.len() - 1 implies strip_cr(#[trigger] s[i]) == s[i] by {
                assert(s[i] == s0[i]);
                if i == s0.len() - 1 && s0[i].len() > 0 {
                    assert(b[b.len() - 2] == b0.last());
                }
            }
        } else {
            assert forall|i: int| 0 <= i < s.len() - 1 implies strip_cr(#[trigger] s[i]) == s[i] by {
                assert(s[i] == s0[i]);
            }
        }
    }
}

/// Reading a text into lines and joining them with newlines gives the text
/// back, as long as no line ended in a carriage return before its newline;
/// a text that ends in a newline has an empty last line.
pub proof fn lemma_lines_round_trip(b: Seq<u8>)
    requires
        no_crlf(b),
    ensures
        join(lines_of(b), seq![NEWLINE]) == b,
        b.len() > 0 && b.last() == NEWLINE ==> lines_of(b).last() == Seq::<u8>::empty(),
{
    if b.len() > 0 {
        lemma_split_no_cr(b);
        lemma_split_len(b, NEWLINE);
        lemma_join_split(b, NEWLINE);
        assert(lines_of(b) =~= split_on(b, NEWLINE));
        if b.last() == NEWLINE {
            assert(b.drop_last().len() < b.len());
        }
    }
}

/// Joining one more part appends the separator and the part.
pub proof fn lemma_join_take(parts: Seq<Seq<u8>>, sep: Seq<u8>, i: int)
    requires
        0 <= i < parts.len(),
    ensures
        join(parts.take(i + 1), sep) == if i == 0 {
            parts[0]
        } else {
            join(parts.take(i), sep) + sep + parts[i]
        },
{
    assert(parts.take(i + 1).drop_last() =~= parts.take(i));
}

/// No byte of `s` is `sep`.
pub open spec fn free_of(s: Seq<u8>, sep: u8) -> bool {
    forall|j: int| 0 <= j < s.len() ==> #[trigger] s[j] != sep
}

/// No piece of a split holds the separator.
pub proof fn lemma_split_free(b: Seq<u8>, sep: u8)
    ensures
        forall|i: int|
            0 <= i < split_on(b, sep).len() ==> free_of(#[trigger] split_on(b, sep)[i], sep),
    decreases b.len(),
{
    if b.len() > 0 {
        lemma_split_free(b.drop_last(), sep);
        lemma_split_len(b.drop_last(), sep);
        let s0 = split_on(b.drop_last(), sep);
        let s = split_on(b, sep);
        assert forall|i: int| 0 <= i < s.len() implies free_of(#[trigger] s[i], sep) by {
            if i < s0.len() - 1 {
                assert(s[i] == s0[i]);
            } else if i == s0.len() - 1 {
                if b.last() != sep {
                    assert forall|j: int| 0 <= j < s[i].len() implies #[trigger] s[i][j] != sep by {
                        if j < s0[i].len() {
                            assert(s[i][j] == s0[i][j]);
                        }
                    }
                }
            }
        }
    }
}

/// Text without the separator splits into itself alone.
pub proof fn lemma_split_single(b: Seq<u8>, sep: u8)
    requires
        free_of(b, sep),
    ensures
        split_on(b, sep) == seq![b],
    decreases b.len(),
{
    if b.len() > 0 {
        lemma_split_single(b.drop_last(), sep);
        assert(b.drop_last().push(b.last()) =~= b);
    } else {
        assert(b =~= Seq::<u8>::empty());
    }
}

/// Splitting `x`, a separator and separator-free `y` gives the pieces of
/// `x` and then `y`.
proof fn lemma_split_append(x: Seq<u8>, y: Seq<u8>, sep: u8)
    requires
        free_of(y, sep),
    ensures
        split_on(x + seq![sep] + y, sep) == split_on(x, sep).push(y),
    decreases y.len(),
{
    if y.len() == 0 {
        assert((x + seq![sep] + y).drop_last() =~= x);
        assert(x + seq![sep] + y =~= x.push(sep));
        assert(y =~= Seq::<u8>::empty());
    } else {
        assert(y[y.len() - 1] != sep);
        assert((x + seq![sep] + y).last() == y.last());
        let y0 = y.drop_last();
        assert(free_of(y0, sep));
        lemma_split_append(x, y0, sep);
        assert((x + seq![sep] + y).drop_last() =~= x + seq![sep] + y0);
        assert(y0.push(y.last()) =~= y);
        assert(split_on(x, sep).push(y0).update(split_on(x, sep).len() as int, y) =~= split_on(
            x,
            sep,
        ).push(y));
    }
}

/// Splitting pieces joined by a separator none of them holds gives the
/// pieces back.
pub proof fn lemma_split_join(parts: Seq<Seq<u8>>, sep: u8)
    requires
        parts.len() >= 1,
        forall|i: int| 0 <= i < parts.len() ==> free_of(#[trigger] parts[i], sep),
    ensures
        split_on(join(parts, seq![sep]), sep) == parts,
    decreases parts.len(),
{
    if parts.len() == 1 {
        lemma_split_single(parts[0], sep);
        assert(seq![parts[0]] =~= parts);
    } else {
        let init = parts.drop_last();
        lemma_split_join(init, sep);
        assert(free_of(parts.last(), sep));
        lemma_split_append(join(init, seq![sep]), parts.last(), sep);
        assert(init.push(parts.last()) =~= parts);
    }
}

/// A join begins with its first part.
pub proof fn lemma_join_first(parts: Seq<Seq<u8>>, sep: Seq<u8>)
    requires
        parts.len() >= 1,
    ensures
        join(parts, sep).len() >= parts[0].len(),
        join(parts, sep).take(parts[0].len() as int) == parts[0],
    decreases parts.len(),
{
    if parts.len() > 1 {
        lemma_join_first(parts.drop_last(), sep);
        let j0 = join(parts.drop_last(), sep);
        assert((j0 + sep + parts.last()).take(parts[0].len() as int) =~= j0.take(
            parts[0].len() as int,
        ));
    }
}

/// The pieces of `text` between newlines.
pub fn split_newlines(text: &str) -> (r: Vec<String>)
    ensures
        views(r@) == split_on(text.spec_bytes(), NEWLINE),
{
    let bytes = text.as_bytes();
    let ghost b = text.spec_bytes();
    let n = bytes.len();
    let mut out: Vec<String> = Vec::new();
    let mut seg_start: usize = 0;
    let mut i: usize = 0;
    assert(b.take(0) =~= Seq::<u8>::empty());
    while i < n
        invariant
            seg_start <= i <= n,
            n == b.len(),
            bytes@ == b,
            b == text.spec_bytes(),
            on_boundary(b, seg_start as int),
            views(out@) + seq![b.subrange(seg_start as int, i as int)] == split_on(b.take(i as int), NEWLINE),
        decreases n - i,
    {
        let ghost prev = split_on(b.take(i as int), NEWLINE);
        assert(b.take(i as int + 1).drop_last() =~= b.take(i as int));
        if bytes[i] == NEWLINE {
            proof {
                lemma_ascii_byte(b[i as int]);
            }
            let seg = slice_bytes(text, seg_start, i);
            out.push(seg);
            proof {
                lemma_after_ascii(b, i as int);
            }
            seg_start = i + 1;
            assert(views(out@) =~= prev);
            assert(b.subrange(seg_start as int, i as int + 1) =~= Seq::<u8>::empty());
        } else {
            assert(b.subrange(seg_start as int, i as int).push(b[i as int]) =~= b.subrange(seg_start as int, i as int + 1));
            assert(views(out@) + seq![b.subrange(seg_start as int, i as int + 1)] =~= prev.update(prev.len() - 1, prev.last().push(b[i as int])));
        }
        i += 1;
    }
    assert(b.take(n as int) =~= b);
    let last = slice_bytes(text, seg_start, n);
    out.push(last);
    assert(views(out@) =~= split_on(b, NEWLINE));
    out
}

/// A string holding the newline character alone.
pub fn newline_str() -> (r: &'static str)
    ensures
        r.spec_bytes() == seq![NEWLINE],
{
    let r = "\n";
    proof {
        reveal_strlit("\n");
        assert(r@ =~= seq!['\n']);
        assert(r@.drop_first() =~= Seq::<char>::empty());
        let x: u32 = '\n' as u32;
        assert(x == 10);
        assert((x & 0x7F) as u8 == 10u8) by (bit_vector)
            requires
                x == 10,
        ;
        assert(encode_scalar(x) =~= seq![NEWLINE]);
        assert(encode_utf8(r@.drop_first()) =~= Seq::<u8>::empty());
        assert(encode_utf8(r@) == encode_scalar(r@[0] as u32) + encode_utf8(r@.drop_first()));
        assert(encode_utf8(r@) =~= seq![NEWLINE]);
    }
    r
}

/// `s` without one trailing carriage return.
pub fn strip_trailing_cr(s: &str) -> (r: String)
    ensures
        utf8(r@) == strip_cr(s.spec_bytes()),
{
    let b = s.as_bytes();
    let n = b.len();
    if n > 0 && b[n - 1] == CARRIAGE_RETURN {
        proof {
            lemma_ascii_byte(b@[n - 1]);
            lemma_start_boundary(s@);
        }
        slice_bytes(s, 0, n - 1)
    } else {
        s.to_owned()
    }
}

/// The lines of `text`, as `lines_of` describes them.
pub fn text_lines(text: &str) -> (r: Vec<String>)
    ensures
        views(r@) == lines_of(text.spec_bytes()),
{
    if text.as_bytes().len() == 0 {
        let r: Vec<String> = Vec::new();
        assert(views(r@) =~= lines_of(text.spec_bytes()));
        return r;
    }
    let segs = split_newlines(text);
    let ghost sp = split_on(text.spec_bytes(), NEWLINE);
    proof {
        lemma_split_len(text.spec_bytes(), NEWLINE);
    }
    let n = segs.len();
    let mut out: Vec<String> = Vec::new();
    let mut i: usize = 0;
    while i < n
        invariant
            n == segs@.len(),
            n == sp.len(),
            i <= n,
            views(segs@) == sp,
            views(out@) =~= Seq::new(
                i as nat,
                |j: int| if j < sp.len() - 1 { strip_cr(sp[j]) } else { sp[j] },
            ),
        decreases n - i,
    {
        let seg = segs[i].as_str();
        assert(seg.spec_bytes() == sp[i as int]);
        let line = if i + 1 < n {
            strip_trailing_cr(seg)
        } else {
            seg.to_owned()
        };
        let ghost before = out@;
        out.push(line);
        assert(views(out@) =~= views(before).push(utf8(line@)));
        i += 1;
    }
    out
}

/// `parts` joined with `sep` between each two neighbours.
pub fn join_strings(parts: &Vec<String>, sep: &str) -> (r: String)
    ensures
        utf8(r@) == join(views(parts@), sep.spec_bytes()),
{
    let ghost p = views(parts@);
    let mut acc = String::new();
    let mut i: usize = 0;
    while i < parts.len()
        invariant
            i <= parts@.len(),
            p == views(parts@),
            utf8(acc@) == join(p.take(i as int), sep.spec_bytes()),
        decreases parts@.len() - i,
    {
        let ghost sb = sep.spec_bytes();
        proof {
            lemma_join_take(p, sb, i as int);
        }
        assert(p[i as int] == utf8(parts@[i as int]@));
        if i > 0 {
            acc = concat(acc.as_str(), sep);
        }
        acc = concat(acc.as_str(), parts[i].as_str());
        assert(utf8(acc@) =~= join(p.take(i as int + 1), sb));
        i += 1;
    }
    assert(p.take(parts@.len() as int) =~= p);
    acc
}

} // verus!
