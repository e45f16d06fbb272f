//! Text rules: the order in which paths are listed, and the type that a path
//! stands for.

use vstd::prelude::*;
use vstd::string::StringSliceAdditionalSpecFns;
use vstd::string::StrSliceExecFns;
use vstd::utf8::encode_utf8;
use vstd::utf8::encode_utf8_decode_utf8;

verus! {

/// Whether the bytes of `a` from position `i` on sort strictly before those of
/// `b` from the same position: the first byte that differs decides, and where
/// none does, the shorter sequence comes first.
pub open spec fn bytes_before_from(a: Seq<u8>, b: Seq<u8>, i: int) -> bool
    decreases a.len() - i,
{
    if i < 0 || i >= b.len() {
        false
    } else if i >= a.len() {
        true
    } else if a[i] != b[i] {
        a[i] < b[i]
    } else {
        bytes_before_from(a, b, i + 1)
    }
}

/// Lexicographic order on byte sequences.
pub open spec fn bytes_before(a: Seq<u8>, b: Seq<u8>) -> bool {
    bytes_before_from(a, b, 0)
}

/// The order of two texts: that of their UTF-8 encodings, byte by byte.
pub open spec fn text_before(a: Seq<char>, b: Seq<char>) -> bool {
    bytes_before(encode_utf8(a), encode_utf8(b))
}

/// No suffix sorts before itself.
pub proof fn lemma_bytes_before_irreflexive(a: Seq<u8>, i: int)
    ensures
        !bytes_before_from(a, a, i),
    decreases a.len() - i,
{
    if 0 <= i < a.len() {
        lemma_bytes_before_irreflexive(a, i + 1);
    }
}

/// Two sequences that agree before `i` and of which neither sorts before the
/// other from `i` on are equal.
pub proof fn lemma_bytes_before_connected(a: Seq<u8>, b: Seq<u8>, i: int)
    requires
        0 <= i <= a.len(),
        i <= b.len(),
        forall|k: int| 0 <= k < i ==> a[k] == b[k],
        !bytes_before_from(a, b, i),
        !bytes_before_from(b, a, i),
    ensures
        a == b,
    decreases a.len() - i,
{
    if i < a.len() && i < b.len() {
        lemma_bytes_before_connected(a, b, i + 1);
    } else {
        assert(a =~= b);
    }
}

/// The order on suffixes is transitive.
pub proof fn lemma_bytes_before_transitive(a: Seq<u8>, b: Seq<u8>, c: Seq<u8>, i: int)
    requires
        bytes_before_from(a, b, i),
        bytes_before_from(b, c, i),
    ensures
        bytes_before_from(a, c, i),
    decreases a.len() - i,
{
    if i < a.len() && a[i] == b[i] && b[i] == c[i] {
        lemma_bytes_before_transitive(a, b, c, i + 1);
    }
}

/// The order on suffixes is asymmetric.
pub proof fn lemma_bytes_before_asymmetric(a: Seq<u8>, b: Seq<u8>, i: int)
    requires
        bytes_before_from(a, b, i),
    ensures
        !bytes_before_from(b, a, i),
    decreases a.len() - i,
{
    if i < a.len() && a[i] == b[i] {
        lemma_bytes_before_asymmetric(a, b, i + 1);
    }
}

/// `text_before` is a strict total order on texts: of two texts exactly one
/// sorts before the other, unless they are the same text.
pub proof fn lemma_text_before_total(a: Seq<char>, b: Seq<char>)
    ensures
        !text_before(a, a),
        text_before(a, b) ==> !text_before(b, a),
        a != b ==> text_before(a, b) || text_before(b, a),
{
    let x = encode_utf8(a);
    let y = encode_utf8(b);
    lemma_bytes_before_irreflexive(x, 0);
    if text_before(a, b) {
        lemma_bytes_before_asymmetric(x, y, 0);
    }
    if !text_before(a, b) && !text_before(b, a) {
        lemma_bytes_before_connected(x, y, 0);
        encode_utf8_decode_utf8(a);
        encode_utf8_decode_utf8(b);
    }
}

/// `text_before` is transitive.
pub proof fn lemma_text_before_transitive(a: Seq<char>, b: Seq<char>, c: Seq<char>)
    requires
        text_before(a, b),
        text_before(b, c),
    ensures
        text_before(a, c),
{
    lemma_bytes_before_transitive(encode_utf8(a), encode_utf8(b), encode_utf8(c), 0);
}

/// Tells whether `a` sorts strictly before `b`.
pub fn str_before(a: &str, b: &str) -> (before: bool)
    ensures
        before == text_before(a@, b@),
{
    let x = a.as_bytes();
    let y = b.as_bytes();
    let mut i: usize = 0;
    while i < x.len() && i < y.len()
        invariant
            x@ == encode_utf8(a@),
            y@ == encode_utf8(b@),
            i <= x@.len(),
            i <= y@.len(),
            bytes_before(x@, y@) == bytes_before_from(x@, y@, i as int),
        decreases x@.len() - i,
    {
        if x[i] != y[i] {
            return x[i] < y[i];
        }
        i += 1;
    }
    i < y.len()
}

/// Tells whether two texts are the same.
pub fn str_same(a: &str, b: &str) -> (same: bool)
    ensures
        same == (a@ == b@),
{
    let x = a.as_bytes();
    let y = b.as_bytes();
    proof {
        encode_utf8_decode_utf8(a@);
        encode_utf8_decode_utf8(b@);
    }
    if x.len() != y.len() {
        return false;
    }
    let mut i: usize = 0;
    while i < x.len()
        invariant
            x@ == encode_utf8(a@),
            y@ == encode_utf8(b@),
            a@ == b@ ==> x@ == y@,
            i <= x@.len(),
            x@.len() == y@.len(),
            forall|k: int| 0 <= k < i ==> x@[k] == y@[k],
        decreases x@.len() - i,
    {
        if x[i] != y[i] {
            return false;
        }
        i += 1;
    }
    assert(x@ =~= y@);
    true
}

/// Copies a list of texts.
pub fn copy_texts(texts: &Vec<String>) -> (copy: Vec<String>)
    ensures
        copy.deep_view() == texts.deep_view(),
{
    let mut copy: Vec<String> = Vec::new();
    let mut index: usize = 0;
    while index < texts.len()
        invariant
            index <= texts.len(),
            copy.len() == index,
            forall|i: int| 0 <= i < index ==> (#[trigger] copy[i])@ == texts[i]@,
        decreases texts.len() - index,
    {
        copy.push(texts[index].clone());
        index += 1;
    }
    assert(copy.deep_view() =~= texts.deep_view());
    copy
}

/// The position of the last `c` in `s`, or -1 where `s` holds none.
pub open spec fn last_index_of(s: Seq<char>, c: char) -> int
    decreases s.len(),
{
    if s.len() == 0 {
        -1
    } else if s.last() == c {
        s.len() - 1
    } else {
        last_index_of(s.drop_last(), c)
    }
}

/// The last segment of a path: what follows its last `/`, or the whole path
/// where it holds none.
pub open spec fn final_segment(path: Seq<char>) -> Seq<char> {
    path.skip(last_index_of(path, '/') + 1)
}

/// The type that a path stands for: what follows the last `.` of its final
/// segment, or `unknown` where that segment holds no `.`.
pub open spec fn extension_of(path: Seq<char>) -> Seq<char> {
    let segment = final_segment(path);
    let dot = last_index_of(segment, '.');
    if dot < 0 {
        "unknown"@
    } else {
        segment.skip(dot + 1)
    }
}

/// Where the last `.` of the final segment of `p` stands in `p`, or -1.
spec fn final_dot(p: Seq<char>) -> int {
    let start = last_index_of(p, '/') + 1;
    let dot = last_index_of(p.skip(start), '.');
    if dot < 0 {
        -1
    } else {
        start + dot
    }
}

proof fn lemma_last_index_bounds(s: Seq<char>, c: char)
    ensures
        -1 <= last_index_of(s, c) < s.len(),
    decreases s.len(),
{
    if s.len() > 0 && s.last() != c {
        lemma_last_index_bounds(s.drop_last(), c);
    }
}

/// What one more character does to the last `/` and to the last `.` of the
/// final segment.
proof fn lemma_final_dot_step(p: Seq<char>, c: char)
    ensures
        last_index_of(p.push(c), '/') == if c == '/' {
            p.len() as int
        } else {
            last_index_of(p, '/')
        },
        final_dot(p.push(c)) == if c == '/' {
            -1
        } else if c == '.' {
            p.len() as int
        } else {
            final_dot(p)
        },
{
    let q = p.push(c);
    assert(q.drop_last() =~= p);
    lemma_last_index_bounds(p, '/');
    if c == '/' {
        assert(q.skip(q.len() as int) =~= Seq::<char>::empty());
    } else {
        let start = last_index_of(p, '/') + 1;
        assert(q.skip(start) =~= p.skip(start).push(c));
        assert(q.skip(start).drop_last() =~= p.skip(start));
    }
}

/// Derives the type of a file from its path.
pub fn file_extension(path: &str) -> (extension: String)
    ensures
        extension@ == extension_of(path@),
{
    let total = path.unicode_len();
    let mut seen: usize = 0;
    let mut dot: Option<usize> = None;
    for c in it: path.chars()
        invariant
            total == path@.len(),
            seen == it.index(),
            seen <= total,
            it.seq() == path@,
            match dot {
                Some(d) => d == final_dot(path@.take(seen as int)),
                None => final_dot(path@.take(seen as int)) == -1,
            },
    {
        proof {
            lemma_final_dot_step(path@.take(seen as int), c);
            assert(path@.take(seen as int).push(c) =~= path@.take(seen + 1));
        }
        if c == '/' {
            dot = None;
        } else if c == '.' {
            dot = Some(seen);
        }
        seen += 1;
    }
    proof {
        assert(path@.take(seen as int) =~= path@);
        lemma_last_index_bounds(path@, '/');
        lemma_last_index_bounds(final_segment(path@), '.');
    }
    match dot {
        Some(d) => {
            let tail = path.substring_char(d + 1, total);
            proof {
                let start = last_index_of(path@, '/') + 1;
                assert(path@.skip(start).skip(d - start + 1) =~= path@.subrange(
                    d + 1,
                    total as int,
                ));
            }
            tail.to_owned()
        },
        None => "unknown".to_owned(),
    }
}

} // verus!
