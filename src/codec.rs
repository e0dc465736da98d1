use vstd::prelude::*;
use crate::entity::Entity;
use vstd::slice::slice_subrange;
use vstd::utf8::{decode_utf8, valid_utf8};

verus! {

/// The fixed capacity of a received frame, in bytes.
pub const FRAME_CAPACITY: usize = 1024;

/// Unicode's White_Space property, the set that separates the values of a frame.
pub open spec fn is_space(c: char) -> bool {
    let u = c as u32;
    ||| 0x09 <= u <= 0x0d
    ||| u == 0x20
    ||| u == 0x85
    ||| u == 0xa0
    ||| u == 0x1680
    ||| 0x2000 <= u <= 0x200a
    ||| u == 0x2028
    ||| u == 0x2029
    ||| u == 0x202f
    ||| u == 0x205f
    ||| u == 0x3000
}

/// Whether `c` separates the values of a frame.
pub fn is_space_char(c: char) -> (r: bool)
    ensures
        r == is_space(c),
{
    let u = c as u32;
    (0x09 <= u && u <= 0x0d) || u == 0x20 || u == 0x85 || u == 0xa0 || u == 0x1680 || (0x2000
        <= u && u <= 0x200a) || u == 0x2028 || u == 0x2029 || u == 0x202f || u == 0x205f || u
        == 0x3000
}

/// A token: a non-empty run of characters none of which is white space.
pub open spec fn is_token(t: Seq<char>) -> bool {
    t.len() > 0 && forall|i: int| 0 <= i < t.len() ==> !is_space(#[trigger] t[i])
}

/// The maximal runs of non-space characters of `s`, in order.
pub open spec fn words(s: Seq<char>) -> Seq<Seq<char>>
    decreases s.len(),
{
    if s.len() == 0 {
        Seq::empty()
    } else {
        let prev = s.drop_last();
        let c = s.last();
        let w = words(prev);
        if is_space(c) {
            w
        } else if prev.len() > 0 && !is_space(prev.last()) {
            w.drop_last().push(w.last().push(c))
        } else {
            w.push(seq![c])
        }
    }
}

/// The views of a sequence of string slices.
pub open spec fn views<'a>(v: Seq<&'a str>) -> Seq<Seq<char>> {
    v.map_values(|t: &'a str| t@)
}

/// The four values of an entity written as one frame, single spaces between.
pub open spec fn joined(x: Seq<char>, y: Seq<char>, w: Seq<char>, h: Seq<char>) -> Seq<char> {
    x + seq![' '] + y + seq![' '] + w + seq![' '] + h
}

/// The values of `parsed` that parsed, in order.
pub open spec fn kept<T>(parsed: Seq<Option<T>>) -> Seq<T>
    decreases parsed.len(),
{
    if parsed.len() == 0 {
        Seq::empty()
    } else {
        let k = kept(parsed.drop_last());
        match parsed.last() {
            Some(v) => k.push(v),
            None => k,
        }
    }
}

/// Splits a received frame's text into its tokens.
pub fn split_tokens<'a>(text: &'a str) -> (r: Vec<&'a str>)
    ensures
        views(r@) == words(text@),
{
    let n = text.unicode_len();
    let mut out: Vec<&'a str> = Vec::new();
    let mut in_word: bool = false;
    let mut start: usize = 0;
    let mut i: usize = 0;
    while i < n
        invariant
            n == text@.len(),
            i <= n,
            start <= i,
            in_word ==> start < i,
            in_word ==> views(out@).push(text@.subrange(start as int, i as int)) == words(
                text@.take(i as int),
            ),
            !in_word ==> views(out@) == words(text@.take(i as int)),
            in_word ==> !is_space(text@[i - 1]),
            !in_word && i > 0 ==> is_space(text@[i - 1]),
        decreases n - i,
    {
        let c = text.get_char(i);
        let ghost prefix = text@.take(i as int);
        proof {
            assert(text@.take(i + 1).drop_last() =~= prefix);
            assert(text@.take(i + 1).last() == c);
        }
        if is_space_char(c) {
            if in_word {
                let t = text.substring_char(start, i);
                let ghost before = out@;
                out.push(t);
                proof {
                    assert(views(out@) =~= views(before).push(t@));
                }
                in_word = false;
            }
        } else {
            if !in_word {
                start = i;
                in_word = true;
                proof {
                    assert(text@.subrange(i as int, i + 1) =~= seq![c]);
                }
            } else {
                proof {
                    assert(prefix.last() == text@[i - 1]);
                    assert(text@.subrange(start as int, i + 1) =~= text@.subrange(
                        start as int,
                        i as int,
                    ).push(c));
                }
            }
        }
        i = i + 1;
    }
    if in_word {
        let t = text.substring_char(start, n);
        let ghost before = out@;
        out.push(t);
        proof {
            assert(views(out@) =~= views(before).push(t@));
        }
    }
    proof {
        assert(text@.take(n as int) =~= text@);
    }
    out
}

/// Writes an entity's four values, already rendered as text, as one frame.
pub fn encode_fields(x: &str, y: &str, width: &str, height: &str) -> (r: String)
    ensures
        r@ == joined(x@, y@, width@, height@),
{
    let sep = " ";
    proof {
        reveal_strlit(" ");
        assert(sep@ =~= seq![' ']);
    }
    let mut out = String::from_str(x);
    out.append(sep);
    out.append(y);
    out.append(sep);
    out.append(width);
    out.append(sep);
    out.append(height);
    out
}

/// Encodes an entity as a frame, each value written by `render`.
pub fn encode<T: Copy, F: Fn(T) -> String>(e: &Entity<T>, render: &F) -> (r: String)
    requires
        forall|v: T| render.requires((v,)),
    ensures
        exists|x: String, y: String, w: String, h: String|
            render.ensures((e.x,), x) && render.ensures((e.y,), y) && render.ensures((e.width,), w)
                && render.ensures((e.height,), h) && r@ == joined(x@, y@, w@, h@),
{
    let x = render(e.x);
    let y = render(e.y);
    let w = render(e.width);
    let h = render(e.height);
    encode_fields(x.as_str(), y.as_str(), w.as_str(), h.as_str())
}

/// Keeps the tokens that parsed, dropping the others, order kept.
pub fn keep_parsed<T: Copy>(parsed: &[Option<T>]) -> (r: Vec<T>)
    ensures
        r@ == kept(parsed@),
{
    let mut out: Vec<T> = Vec::new();
    let mut i: usize = 0;
    while i < parsed.len()
        invariant
            i <= parsed@.len(),
            out@ == kept(parsed@.take(i as int)),
        decreases parsed@.len() - i,
    {
        proof {
            assert(parsed@.take(i + 1).drop_last() =~= parsed@.take(i as int));
        }
        match parsed[i] {
            Some(v) => out.push(v),
            None => {},
        }
        i = i + 1;
    }
    proof {
        assert(parsed@.take(i as int) =~= parsed@);
    }
    out
}

/// `parsed` holds, in order, what `parse` gave for each of `tokens`.
pub open spec fn parsed_each<'a, T, F: Fn(&'a str) -> Option<T>>(
    parse: F,
    tokens: Seq<&'a str>,
    parsed: Seq<Option<T>>,
) -> bool {
    &&& parsed.len() == tokens.len()
    &&& forall|i: int| 0 <= i < tokens.len() ==> #[trigger] parse.ensures((tokens[i],), parsed[i])
}

/// Decodes a frame's text: splits it into tokens, parses each with `parse`,
/// and keeps, in order, the values of the tokens that parsed.
pub fn decode<'a, T: Copy, F: Fn(&'a str) -> Option<T>>(text: &'a str, parse: &F) -> (r: Vec<T>)
    requires
        forall|t: &'a str| parse.requires((t,)),
    ensures
        exists|tokens: Seq<&'a str>, parsed: Seq<Option<T>>|
            views(tokens) == words(text@) && parsed_each(*parse, tokens, parsed) && r@ == kept(
                parsed,
            ),
{
    let tokens = split_tokens(text);
    let mut parsed: Vec<Option<T>> = Vec::new();
    let mut i: usize = 0;
    while i < tokens.len()
        invariant
            i <= tokens@.len(),
            forall|t: &'a str| parse.requires((t,)),
            parsed_each(*parse, tokens@.take(i as int), parsed@),
        decreases tokens@.len() - i,
    {
        let v = parse(tokens[i]);
        parsed.push(v);
        i = i + 1;
        proof {
            let tk = tokens@.take(i as int);
            assert forall|j: int| 0 <= j < tk.len() implies #[trigger] parse.ensures(
                (tk[j],),
                parsed@[j],
            ) by {
                assert(tk[j] == tokens@.take(i - 1)[j] || j == i - 1);
            }
        }
    }
    proof {
        assert(tokens@.take(i as int) =~= tokens@);
    }
    keep_parsed(parsed.as_slice())
}

/// Relies on std::str::from_utf8: the bytes are taken as text exactly when
/// they are valid UTF-8, and the text is what they encode.
#[verifier::external_body]
fn utf8_text(bytes: &[u8]) -> (r: Option<&str>)
    ensures
        r is Some <==> valid_utf8(bytes@),
        r matches Some(s) ==> s@ == decode_utf8(bytes@),
{
    std::str::from_utf8(bytes).ok()
}

/// Decodes the first `len` bytes of a received datagram, or gives `None`
/// when they are not UTF-8 text.
pub fn decode_datagram<'a, T: Copy, F: Fn(&'a str) -> Option<T>>(
    buf: &'a [u8],
    len: usize,
    parse: &F,
) -> (r: Option<Vec<T>>)
    requires
        len <= buf@.len(),
        forall|t: &'a str| parse.requires((t,)),
    ensures
        r is Some <==> valid_utf8(buf@.take(len as int)),
        r matches Some(v) ==> exists|tokens: Seq<&'a str>, parsed: Seq<Option<T>>|
            views(tokens) == words(decode_utf8(buf@.take(len as int))) && parsed_each(
                *parse,
                tokens,
                parsed,
            ) && v@ == kept(parsed),
{
    let bytes = slice_subrange(buf, 0, len);
    proof {
        assert(bytes@ =~= buf@.take(len as int));
    }
    match utf8_text(bytes) {
        Some(text) => Some(decode(text, parse)),
        None => None,
    }
}

/// A token read after nothing, or after white space, is a word of its own.
proof fn words_append_token(a: Seq<char>, b: Seq<char>)
    requires
        is_token(b),
        a.len() == 0 || is_space(a.last()),
    ensures
        words(a + b) == words(a).push(b),
    decreases b.len(),
{
    let ab = a + b;
    assert(ab.last() == b.last());
    if b.len() == 1 {
        assert(ab.drop_last() =~= a);
        assert(b =~= seq![b[0]]);
    } else {
        let b1 = b.drop_last();
        assert(is_token(b1)) by {
            assert forall|i: int| 0 <= i < b1.len() implies !is_space(#[trigger] b1[i]) by {
                assert(b1[i] == b[i]);
            }
        }
        words_append_token(a, b1);
        assert(ab.drop_last() =~= a + b1);
        assert((a + b1).last() == b1.last());
        assert(b1.push(b.last()) =~= b);
        assert(words(a).push(b1).drop_last() =~= words(a));
    }
}

/// White space added at the end brings no new word.
proof fn words_append_space(a: Seq<char>)
    ensures
        words(a + seq![' ']) == words(a),
        (a + seq![' ']).last() == ' ',
{
    assert((a + seq![' ']).drop_last() =~= a);
    assert(is_space(' '));
}

/// Splitting a frame that was written from four tokens gives those four
/// tokens back, in order.
pub proof fn round_trip(x: Seq<char>, y: Seq<char>, w: Seq<char>, h: Seq<char>)
    requires
        is_token(x),
        is_token(y),
        is_token(w),
        is_token(h),
    ensures
        words(joined(x, y, w, h)) == seq![x, y, w, h],
{
    let sp = seq![' '];
    assert(is_space(' '));
    words_append_token(Seq::empty(), x);
    assert(Seq::<char>::empty() + x =~= x);
    let s1 = x + sp;
    words_append_space(x);
    words_append_token(s1, y);
    let s2 = s1 + y + sp;
    words_append_space(s1 + y);
    words_append_token(s2, w);
    let s3 = s2 + w + sp;
    words_append_space(s2 + w);
    words_append_token(s3, h);
    assert(joined(x, y, w, h) =~= s3 + h);
    assert(Seq::<Seq<char>>::empty().push(x).push(y).push(w).push(h) =~= seq![x, y, w, h]);
}

/// Decoding undoes encoding: when every rendered value is a token, and
/// parsing the text of a rendered value gives that value back, the frame
/// written for an entity decodes to its four values, in order. `x`, `y`, `w`
/// and `h` are the rendered values that `encode` wrote; `tokens` and `parsed`
/// are what `decode` split and parsed.
pub proof fn decode_inverts_encode<'a, T, R: Fn(T) -> String, P: Fn(&'a str) -> Option<T>>(
    e: Entity<T>,
    render: R,
    parse: P,
    x: String,
    y: String,
    w: String,
    h: String,
    tokens: Seq<&'a str>,
    parsed: Seq<Option<T>>,
)
    requires
        forall|v: T, t: String| #[trigger] render.ensures((v,), t) ==> is_token(t@),
        forall|v: T, t: String, u: &'a str, o: Option<T>|
            #[trigger] render.ensures((v,), t) && u@ == t@ && #[trigger] parse.ensures((u,), o)
                ==> o == Some(v),
        render.ensures((e.x,), x),
        render.ensures((e.y,), y),
        render.ensures((e.width,), w),
        render.ensures((e.height,), h),
        views(tokens) == words(joined(x@, y@, w@, h@)),
        parsed_each(parse, tokens, parsed),
    ensures
        kept(parsed) == seq![e.x, e.y, e.width, e.height],
{
    assert(is_token(x@) && is_token(y@) && is_token(w@) && is_token(h@));
    round_trip(x@, y@, w@, h@);
    assert(views(tokens).len() == tokens.len());
    assert(tokens.len() == 4);
    assert(tokens[0]@ == views(tokens)[0]);
    assert(tokens[1]@ == views(tokens)[1]);
    assert(tokens[2]@ == views(tokens)[2]);
    assert(tokens[3]@ == views(tokens)[3]);
    assert(parse.ensures((tokens[0],), parsed[0]));
    assert(parse.ensures((tokens[1],), parsed[1]));
    assert(parse.ensures((tokens[2],), parsed[2]));
    assert(parse.ensures((tokens[3],), parsed[3]));
    let p0 = Seq::<Option<T>>::empty();
    let p1 = p0.push(Some(e.x));
    let p2 = p1.push(Some(e.y));
    let p3 = p2.push(Some(e.width));
    let p4 = p3.push(Some(e.height));
    assert(parsed =~= p4);
    assert(p1.drop_last() =~= p0);
    assert(p2.drop_last() =~= p1);
    assert(p3.drop_last() =~= p2);
    assert(p4.drop_last() =~= p3);
    assert(kept(p0) == Seq::<T>::empty());
    assert(kept(p1) == Seq::<T>::empty().push(e.x));
    assert(kept(p2) == kept(p1).push(e.y));
    assert(kept(p3) == kept(p2).push(e.width));
    assert(kept(p4) == kept(p3).push(e.height));
    assert(kept(p4) =~= seq![e.x, e.y, e.width, e.height]);
}

} // verus!
