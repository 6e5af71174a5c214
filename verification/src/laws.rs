//! Laws the decoder obeys, stated and proved over the grammar in
//! [`crate::model`].  Because every executable decoder returns exactly
//! what its specification function says about the input bytes, each law
//! proved here carries over to the executable decoders.

use vstd::prelude::*;
use crate::fields::be_u24;
use crate::model::{
    SpecParse, SpecTag, SpecAudioData, SpecVideoData, spec_header, spec_tag_header, spec_tag_data,
    spec_complete_tag, spec_audio_data, spec_video_data, spec_script_data,
    spec_script_data_string, spec_script_data_long_string, spec_script_data_date,
    spec_is_object_end, spec_script_data_value, spec_script_data_object,
    spec_script_data_objects, spec_strict_values, spec_script_data_ecma_array,
    spec_script_data_strict_array, lemma_script_data_value_len, lemma_script_data_object_len,
    lemma_script_data_objects_len, lemma_strict_values_len, lemma_script_data_ecma_array_len,
    lemma_script_data_strict_array_len, SpecScriptDataValue, SpecScriptDataObject,
};
use crate::parser::ScriptDataDate;
use crate::parser::{ParseError, TagType};

verus! {

/// A tag payload decode reads nothing past the declared size: two
/// inputs that agree on their first `size` bytes decode identically.
pub proof fn lemma_tag_data_reads_within_size(
    tag_type: TagType,
    size: nat,
    s1: Seq<u8>,
    s2: Seq<u8>,
)
    requires
        s1.len() >= size,
        s2.len() >= size,
        s1.subrange(0, size as int) == s2.subrange(0, size as int),
    ensures
        spec_tag_data(tag_type, size, s1) == spec_tag_data(tag_type, size, s2),
{
    if size >= 1 {
        assert(s1.subrange(0, size as int)[0] == s1[0]);
        assert(s2.subrange(0, size as int)[0] == s2[0]);
        assert(s1.subrange(1, size as int) =~= s1.subrange(0, size as int).subrange(
            1,
            size as int,
        ));
        assert(s2.subrange(1, size as int) =~= s2.subrange(0, size as int).subrange(
            1,
            size as int,
        ));
        if size >= 4 {
            assert(s1.subrange(1, 4) =~= s1.subrange(0, size as int).subrange(1, 4));
            assert(s2.subrange(1, 4) =~= s2.subrange(0, size as int).subrange(1, 4));
            assert(s1.subrange(4, size as int) =~= s1.subrange(0, size as int).subrange(
                4,
                size as int,
            ));
            assert(s2.subrange(4, size as int) =~= s2.subrange(0, size as int).subrange(
                4,
                size as int,
            ));
        }
    }
}

/// Restartability of tag decoding.  If a buffer decodes to a complete
/// tag consuming `c` bytes, then decoding any strict prefix of those
/// `c` bytes reports exactly how many bytes are still missing, as far
/// as they are knowable: the envelope's worth before 11 bytes have
/// arrived, the tag's full worth after.  And the decode reads nothing
/// past the consumed count, so re-decoding with the full bytes in hand
/// gives the same tag again: nothing is lost by the earlier partial
/// attempt.
pub proof fn lemma_complete_tag_restartable(s: Seq<u8>, t: SpecTag, c: nat, m: int)
    requires
        spec_complete_tag(s) == SpecParse::Complete(t, c),
        0 <= m < c,
    ensures
        c <= s.len(),
        m < 11 ==> spec_complete_tag(s.take(m)) == SpecParse::<SpecTag>::Incomplete(
            (11 - m) as nat,
        ),
        m >= 11 ==> spec_complete_tag(s.take(m)) == SpecParse::<SpecTag>::Incomplete(
            (c - m) as nat,
        ),
        spec_complete_tag(s.take(c as int)) == spec_complete_tag(s),
{
    let ds = be_u24(s.subrange(1, 4)) as nat;
    assert(c == 11 + ds);
    assert(c <= s.len());
    let p = s.take(m);
    if m >= 11 {
        assert(p[0] == s[0]);
        assert(p.subrange(1, 4) =~= s.subrange(1, 4));
        assert(p.subrange(4, 7) =~= s.subrange(4, 7));
        assert(p.subrange(8, 11) =~= s.subrange(8, 11));
        assert(p.skip(11).len() == m - 11 < ds);
    }
    let q = s.take(c as int);
    assert(q[0] == s[0]);
    assert(q.subrange(1, 4) =~= s.subrange(1, 4));
    assert(q.subrange(4, 7) =~= s.subrange(4, 7));
    assert(q.subrange(8, 11) =~= s.subrange(8, 11));
    assert(q.subrange(5, 9) =~= s.subrange(5, 9));
    assert(q.skip(11).len() == ds);
    assert(q.skip(11).subrange(0, ds as int) =~= s.skip(11).subrange(0, ds as int));
    match spec_tag_header(s) {
        SpecParse::Complete(h, _) => {
            lemma_tag_data_reads_within_size(h.tag_type, ds, q.skip(11), s.skip(11));
        },
        _ => {},
    }
}

/// Restartability of header decoding: any fewer than 9 bytes report
/// exactly how many are still missing, and the header decode reads
/// nothing past its 9 bytes.
pub proof fn lemma_header_restartable(s: Seq<u8>, m: int)
    requires
        0 <= m <= s.len(),
    ensures
        m < 9 ==> spec_header(s.take(m)) == SpecParse::<crate::parser::Header>::Incomplete(
            (9 - m) as nat,
        ),
        m >= 9 && s.len() >= 9 ==> spec_header(s.take(m)) == spec_header(s),
{
    let p = s.take(m);
    if m >= 9 && s.len() >= 9 {
        assert(p[0] == s[0]);
        assert(p[1] == s[1]);
        assert(p[2] == s[2]);
        assert(p[3] == s[3]);
        assert(p[4] == s[4]);
        assert(p.subrange(5, 9) =~= s.subrange(5, 9));
    }
}

/// Decoding is a pure function of the bytes: equal buffers decode
/// equally, so decoding the same immutable buffer twice, through any
/// entry point, gives structurally equal results.
pub proof fn lemma_decode_deterministic(s1: Seq<u8>, s2: Seq<u8>)
    requires
        s1 == s2,
    ensures
        spec_header(s1) == spec_header(s2),
        spec_tag_header(s1) == spec_tag_header(s2),
        spec_complete_tag(s1) == spec_complete_tag(s2),
        spec_script_data(s1) == spec_script_data(s2),
{
}

// ------------------------------------------------------------------
// Restartability of the metadata grammar.
//
// Two lemma families carry the induction.  The extension lemmas say a
// complete decode reads nothing outside the bytes it consumed: any
// input agreeing on that prefix decodes to the same value.  The
// truncation lemmas say a strict prefix of a complete decode's bytes
// is reported incomplete, never as a failure.
// ------------------------------------------------------------------

/// Positions below `c` agree when the length-`c` prefixes agree.
proof fn lemma_prefix_index(s: Seq<u8>, s2: Seq<u8>, c: int, i: int)
    requires
        0 <= i < c,
        c <= s.len(),
        c <= s2.len(),
        s2.subrange(0, c) == s.subrange(0, c),
    ensures
        s2[i] == s[i],
{
    assert(s2.subrange(0, c)[i] == s2[i]);
    assert(s.subrange(0, c)[i] == s[i]);
}

/// Subranges below `c` agree when the length-`c` prefixes agree.
proof fn lemma_prefix_subrange(s: Seq<u8>, s2: Seq<u8>, c: int, a: int, b: int)
    requires
        0 <= a <= b <= c,
        c <= s.len(),
        c <= s2.len(),
        s2.subrange(0, c) == s.subrange(0, c),
    ensures
        s2.subrange(a, b) == s.subrange(a, b),
{
    assert forall|i: int| 0 <= i < b - a implies s2.subrange(a, b)[i] == s.subrange(a, b)[i] by {
        lemma_prefix_index(s, s2, c, a + i);
    };
    assert(s2.subrange(a, b) =~= s.subrange(a, b));
}

/// Prefix agreement up to `c` survives skipping `k <= c` bytes.
proof fn lemma_prefix_skip(s: Seq<u8>, s2: Seq<u8>, c: int, k: int)
    requires
        0 <= k <= c,
        c <= s.len(),
        c <= s2.len(),
        s2.subrange(0, c) == s.subrange(0, c),
    ensures
        s2.skip(k).len() == s2.len() - k,
        s2.skip(k).subrange(0, c - k) == s.skip(k).subrange(0, c - k),
{
    assert forall|i: int| #![trigger s2.skip(k)[i]] 0 <= i < c - k implies s2.skip(k)[i]
        == s.skip(k)[i] by {
        assert(s2.skip(k)[i] == s2[k + i]);
        assert(s.skip(k)[i] == s[k + i]);
        lemma_prefix_index(s, s2, c, k + i);
    };
    assert(s2.skip(k).subrange(0, c - k) =~= s.skip(k).subrange(0, c - k));
}

/// Truncating to `m` and then skipping `k <= m` bytes is skipping and
/// then truncating.
proof fn lemma_take_skip(s: Seq<u8>, m: int, k: int)
    requires
        0 <= k <= m <= s.len(),
    ensures
        s.take(m).skip(k) == s.skip(k).take(m - k),
{
    assert(s.take(m).skip(k) =~= s.skip(k).take(m - k));
}

/// A complete short string decode reads only the bytes it consumed.
proof fn lemma_string_extends(s: Seq<u8>, s2: Seq<u8>, b: Seq<u8>, c: nat)
    requires
        spec_script_data_string(s) == SpecParse::Complete(b, c),
        s2.len() >= c,
        s2.subrange(0, c as int) == s.subrange(0, c as int),
    ensures
        spec_script_data_string(s2) == SpecParse::Complete(b, c),
{
    let n = crate::fields::be_u16(s.subrange(0, 2)) as int;
    lemma_prefix_subrange(s, s2, c as int, 0, 2);
    lemma_prefix_subrange(s, s2, c as int, 2, 2 + n);
}

/// A complete long string decode reads only the bytes it consumed.
proof fn lemma_long_string_extends(s: Seq<u8>, s2: Seq<u8>, b: Seq<u8>, c: nat)
    requires
        spec_script_data_long_string(s) == SpecParse::Complete(b, c),
        s2.len() >= c,
        s2.subrange(0, c as int) == s.subrange(0, c as int),
    ensures
        spec_script_data_long_string(s2) == SpecParse::Complete(b, c),
{
    let n = crate::fields::be_u32(s.subrange(0, 4)) as int;
    lemma_prefix_subrange(s, s2, c as int, 0, 4);
    lemma_prefix_subrange(s, s2, c as int, 4, 4 + n);
}

/// A complete date decode reads only its 10 bytes.
proof fn lemma_date_extends(s: Seq<u8>, s2: Seq<u8>, d: ScriptDataDate, c: nat)
    requires
        spec_script_data_date(s) == SpecParse::Complete(d, c),
        s2.len() >= c,
        s2.subrange(0, c as int) == s.subrange(0, c as int),
    ensures
        spec_script_data_date(s2) == SpecParse::Complete(d, c),
{
    lemma_prefix_subrange(s, s2, c as int, 0, 8);
    lemma_prefix_subrange(s, s2, c as int, 8, 10);
}

/// A complete value decode reads only the bytes it consumed.
proof fn lemma_value_extends(
    s: Seq<u8>,
    depth: nat,
    s2: Seq<u8>,
    v: SpecScriptDataValue,
    c: nat,
)
    requires
        spec_script_data_value(s, depth) == SpecParse::Complete(v, c),
        s2.len() >= c,
        s2.subrange(0, c as int) == s.subrange(0, c as int),
    ensures
        spec_script_data_value(s2, depth) == SpecParse::Complete(v, c),
    decreases s.len(), 0int,
{
    lemma_script_data_value_len(s, depth);
    lemma_prefix_index(s, s2, c as int, 0);
    let marker = s[0];
    if marker == 0 {
        lemma_prefix_subrange(s, s2, c as int, 1, 9);
    } else if marker == 1 {
        lemma_prefix_index(s, s2, c as int, 1);
    } else if marker == 2 || marker == 4 {
        if let SpecParse::Complete(b, c1) = spec_script_data_string(s.skip(1)) {
            lemma_prefix_skip(s, s2, c as int, 1);
            lemma_string_extends(s.skip(1), s2.skip(1), b, c1);
        }
    } else if marker == 3 {
        if let SpecParse::Complete(objs, c1) = spec_script_data_objects(s.skip(1), depth + 1) {
            lemma_prefix_skip(s, s2, c as int, 1);
            lemma_objects_extends(s.skip(1), depth + 1, s2.skip(1), objs, c1);
        }
    } else if marker == 7 {
        lemma_prefix_subrange(s, s2, c as int, 1, 3);
    } else if marker == 8 {
        if let SpecParse::Complete(objs, c1) = spec_script_data_ecma_array(s.skip(1), depth + 1) {
            lemma_prefix_skip(s, s2, c as int, 1);
            lemma_ecma_array_extends(s.skip(1), depth + 1, s2.skip(1), objs, c1);
        }
    } else if marker == 10 {
        if let SpecParse::Complete(vals, c1) = spec_script_data_strict_array(
            s.skip(1),
            depth + 1,
        ) {
            lemma_prefix_skip(s, s2, c as int, 1);
            lemma_strict_array_extends(s.skip(1), depth + 1, s2.skip(1), vals, c1);
        }
    } else if marker == 11 {
        if let SpecParse::Complete(d, c1) = spec_script_data_date(s.skip(1)) {
            lemma_prefix_skip(s, s2, c as int, 1);
            lemma_date_extends(s.skip(1), s2.skip(1), d, c1);
        }
    } else if marker == 12 {
        if let SpecParse::Complete(b, c1) = spec_script_data_long_string(s.skip(1)) {
            lemma_prefix_skip(s, s2, c as int, 1);
            lemma_long_string_extends(s.skip(1), s2.skip(1), b, c1);
        }
    }
}

/// A complete entry decode reads only the bytes it consumed.
proof fn lemma_object_extends(
    s: Seq<u8>,
    depth: nat,
    s2: Seq<u8>,
    o: SpecScriptDataObject,
    c: nat,
)
    requires
        spec_script_data_object(s, depth) == SpecParse::Complete(o, c),
        s2.len() >= c,
        s2.subrange(0, c as int) == s.subrange(0, c as int),
    ensures
        spec_script_data_object(s2, depth) == SpecParse::Complete(o, c),
    decreases s.len(), 1int,
{
    lemma_script_data_object_len(s, depth);
    if let SpecParse::Complete(name, c1) = spec_script_data_string(s) {
        lemma_prefix_subrange(s, s2, c as int, 0, c1 as int);
        lemma_string_extends(s, s2, name, c1);
        if let SpecParse::Complete(v, c2) = spec_script_data_value(s.skip(c1 as int), depth) {
            lemma_script_data_value_len(s.skip(c1 as int), depth);
            lemma_prefix_skip(s, s2, c as int, c1 as int);
            lemma_value_extends(s.skip(c1 as int), depth, s2.skip(c1 as int), v, c2);
        }
    }
}

/// A complete entry list decode reads only the bytes it consumed.
proof fn lemma_objects_extends(
    s: Seq<u8>,
    depth: nat,
    s2: Seq<u8>,
    objs: Seq<SpecScriptDataObject>,
    c: nat,
)
    requires
        spec_script_data_objects(s, depth) == SpecParse::Complete(objs, c),
        s2.len() >= c,
        s2.subrange(0, c as int) == s.subrange(0, c as int),
    ensures
        spec_script_data_objects(s2, depth) == SpecParse::Complete(objs, c),
    decreases s.len(), 2int,
{
    lemma_script_data_objects_len(s, depth);
    lemma_prefix_index(s, s2, c as int, 0);
    lemma_prefix_index(s, s2, c as int, 1);
    lemma_prefix_index(s, s2, c as int, 2);
    if spec_is_object_end(s) {
        assert(spec_is_object_end(s2));
    } else {
        assert(!spec_is_object_end(s2));
        if let SpecParse::Complete(o, c1) = spec_script_data_object(s, depth) {
            lemma_script_data_object_len(s, depth);
            if let SpecParse::Complete(rest, c2) = spec_script_data_objects(
                s.skip(c1 as int),
                depth,
            ) {
                lemma_script_data_objects_len(s.skip(c1 as int), depth);
                lemma_prefix_subrange(s, s2, c as int, 0, c1 as int);
                lemma_object_extends(s, depth, s2, o, c1);
                lemma_prefix_skip(s, s2, c as int, c1 as int);
                lemma_objects_extends(s.skip(c1 as int), depth, s2.skip(c1 as int), rest, c2);
            }
        }
    }
}

/// A complete run of bare values reads only the bytes it consumed.
proof fn lemma_strict_values_extends(
    s: Seq<u8>,
    n: nat,
    depth: nat,
    s2: Seq<u8>,
    vals: Seq<SpecScriptDataValue>,
    c: nat,
)
    requires
        spec_strict_values(s, n, depth) == SpecParse::Complete(vals, c),
        s2.len() >= c,
        s2.subrange(0, c as int) == s.subrange(0, c as int),
    ensures
        spec_strict_values(s2, n, depth) == SpecParse::Complete(vals, c),
    decreases s.len(), 1int,
{
    if n != 0 {
        if let SpecParse::Complete(v, c1) = spec_script_data_value(s, depth) {
            lemma_script_data_value_len(s, depth);
            if let SpecParse::Complete(rest, c2) = spec_strict_values(
                s.skip(c1 as int),
                (n - 1) as nat,
                depth,
            ) {
                lemma_strict_values_len(s.skip(c1 as int), (n - 1) as nat, depth);
                lemma_prefix_subrange(s, s2, c as int, 0, c1 as int);
                lemma_value_extends(s, depth, s2, v, c1);
                lemma_prefix_skip(s, s2, c as int, c1 as int);
                lemma_strict_values_extends(
                    s.skip(c1 as int),
                    (n - 1) as nat,
                    depth,
                    s2.skip(c1 as int),
                    rest,
                    c2,
                );
            }
        }
    }
}

/// A complete ECMA array decode reads only the bytes it consumed.
proof fn lemma_ecma_array_extends(
    s: Seq<u8>,
    depth: nat,
    s2: Seq<u8>,
    objs: Seq<SpecScriptDataObject>,
    c: nat,
)
    requires
        spec_script_data_ecma_array(s, depth) == SpecParse::Complete(objs, c),
        s2.len() >= c,
        s2.subrange(0, c as int) == s.subrange(0, c as int),
    ensures
        spec_script_data_ecma_array(s2, depth) == SpecParse::Complete(objs, c),
    decreases s.len(), 1int,
{
    lemma_script_data_ecma_array_len(s, depth);
    if let SpecParse::Complete(rest, c2) = spec_script_data_objects(s.skip(4), depth) {
        lemma_prefix_skip(s, s2, c as int, 4);
        lemma_objects_extends(s.skip(4), depth, s2.skip(4), rest, c2);
    }
}

/// A complete strict array decode reads only the bytes it consumed.
proof fn lemma_strict_array_extends(
    s: Seq<u8>,
    depth: nat,
    s2: Seq<u8>,
    vals: Seq<SpecScriptDataValue>,
    c: nat,
)
    requires
        spec_script_data_strict_array(s, depth) == SpecParse::Complete(vals, c),
        s2.len() >= c,
        s2.subrange(0, c as int) == s.subrange(0, c as int),
    ensures
        spec_script_data_strict_array(s2, depth) == SpecParse::Complete(vals, c),
    decreases s.len(), 1int,
{
    lemma_script_data_strict_array_len(s, depth);
    lemma_prefix_subrange(s, s2, c as int, 0, 4);
    let n = crate::fields::be_u32(s.subrange(0, 4)) as nat;
    if let SpecParse::Complete(rest, c2) = spec_strict_values(s.skip(4), n, depth) {
        lemma_strict_values_len(s.skip(4), n, depth);
        lemma_prefix_skip(s, s2, c as int, 4);
        lemma_strict_values_extends(s.skip(4), n, depth, s2.skip(4), rest, c2);
    }
}

/// A truncated short string is an incomplete read.
proof fn lemma_string_truncated(s: Seq<u8>, b: Seq<u8>, c: nat, m: int)
    requires
        spec_script_data_string(s) == SpecParse::Complete(b, c),
        0 <= m < c,
    ensures
        spec_script_data_string(s.take(m)) matches SpecParse::Incomplete(_),
{
    if m >= 2 {
        assert(s.take(m).subrange(0, 2) =~= s.subrange(0, 2));
    }
}

/// A truncated long string is an incomplete read.
proof fn lemma_long_string_truncated(s: Seq<u8>, b: Seq<u8>, c: nat, m: int)
    requires
        spec_script_data_long_string(s) == SpecParse::Complete(b, c),
        0 <= m < c,
    ensures
        spec_script_data_long_string(s.take(m)) matches SpecParse::Incomplete(_),
{
    if m >= 4 {
        assert(s.take(m).subrange(0, 4) =~= s.subrange(0, 4));
    }
}

/// A truncated value is an incomplete read.
proof fn lemma_value_truncated(s: Seq<u8>, depth: nat, v: SpecScriptDataValue, c: nat, m: int)
    requires
        spec_script_data_value(s, depth) == SpecParse::Complete(v, c),
        0 <= m < c,
    ensures
        spec_script_data_value(s.take(m), depth) matches SpecParse::Incomplete(_),
    decreases s.len(), 0int,
{
    lemma_script_data_value_len(s, depth);
    if m >= 1 {
        assert(s.take(m)[0] == s[0]);
        let marker = s[0];
        if marker == 2 || marker == 4 {
            if let SpecParse::Complete(b, c1) = spec_script_data_string(s.skip(1)) {
                lemma_take_skip(s, m, 1);
                lemma_string_truncated(s.skip(1), b, c1, m - 1);
            }
        } else if marker == 3 {
            if let SpecParse::Complete(objs, c1) = spec_script_data_objects(s.skip(1), depth + 1) {
                lemma_take_skip(s, m, 1);
                lemma_objects_truncated(s.skip(1), depth + 1, objs, c1, m - 1);
            }
        } else if marker == 8 {
            if let SpecParse::Complete(objs, c1) = spec_script_data_ecma_array(
                s.skip(1),
                depth + 1,
            ) {
                lemma_take_skip(s, m, 1);
                lemma_ecma_array_truncated(s.skip(1), depth + 1, objs, c1, m - 1);
            }
        } else if marker == 10 {
            if let SpecParse::Complete(vals, c1) = spec_script_data_strict_array(
                s.skip(1),
                depth + 1,
            ) {
                lemma_take_skip(s, m, 1);
                lemma_strict_array_truncated(s.skip(1), depth + 1, vals, c1, m - 1);
            }
        } else if marker == 12 {
            if let SpecParse::Complete(b, c1) = spec_script_data_long_string(s.skip(1)) {
                lemma_take_skip(s, m, 1);
                lemma_long_string_truncated(s.skip(1), b, c1, m - 1);
            }
        }
    }
}

/// A truncated named entry is an incomplete read.
proof fn lemma_object_truncated(s: Seq<u8>, depth: nat, o: SpecScriptDataObject, c: nat, m: int)
    requires
        spec_script_data_object(s, depth) == SpecParse::Complete(o, c),
        0 <= m < c,
    ensures
        spec_script_data_object(s.take(m), depth) matches SpecParse::Incomplete(_),
    decreases s.len(), 1int,
{
    lemma_script_data_object_len(s, depth);
    if let SpecParse::Complete(name, c1) = spec_script_data_string(s) {
        if let SpecParse::Complete(v, c2) = spec_script_data_value(s.skip(c1 as int), depth) {
            if m < c1 {
                lemma_string_truncated(s, name, c1, m);
            } else {
                assert(s.take(m).subrange(0, c1 as int) =~= s.subrange(0, c1 as int));
                lemma_string_extends(s, s.take(m), name, c1);
                lemma_take_skip(s, m, c1 as int);
                lemma_value_truncated(s.skip(c1 as int), depth, v, c2, m - c1);
            }
        }
    }
}

/// A truncated entry list, the terminator included, is an incomplete
/// read: in particular a list whose closing terminator was cut off is
/// reported incomplete, never as a failure.
proof fn lemma_objects_truncated(
    s: Seq<u8>,
    depth: nat,
    objs: Seq<SpecScriptDataObject>,
    c: nat,
    m: int,
)
    requires
        spec_script_data_objects(s, depth) == SpecParse::Complete(objs, c),
        0 <= m < c,
    ensures
        spec_script_data_objects(s.take(m), depth) matches SpecParse::Incomplete(_),
    decreases s.len(), 2int,
{
    lemma_script_data_objects_len(s, depth);
    let p = s.take(m);
    if m >= 1 {
        assert(p[0] == s[0]);
    }
    if m >= 2 {
        assert(p[1] == s[1]);
    }
    if m >= 3 {
        assert(p[2] == s[2]);
    }
    if spec_is_object_end(s) {
        // Only the bare terminator was consumed; its first one or two
        // zero bytes alone read as the start of an entry whose name or
        // value has not arrived yet.
        if m == 2 {
            assert(p.subrange(0, 2) =~= s.subrange(0, 2));
            assert(crate::fields::be_u16(p.subrange(0, 2)) == 0);
            assert(p.subrange(2, 2) =~= Seq::<u8>::empty());
            assert(p.skip(2) =~= Seq::<u8>::empty());
            assert(spec_script_data_value(p.skip(2), depth) matches SpecParse::Incomplete(_));
        }
        assert(spec_script_data_object(p, depth) matches SpecParse::Incomplete(_));
    } else {
        if let SpecParse::Complete(o, c1) = spec_script_data_object(s, depth) {
            lemma_script_data_object_len(s, depth);
            if let SpecParse::Complete(rest, c2) = spec_script_data_objects(
                s.skip(c1 as int),
                depth,
            ) {
                if m < c1 {
                    lemma_object_truncated(s, depth, o, c1, m);
                } else {
                    assert(p.subrange(0, c1 as int) =~= s.subrange(0, c1 as int));
                    lemma_object_extends(s, depth, p, o, c1);
                    lemma_take_skip(s, m, c1 as int);
                    lemma_objects_truncated(s.skip(c1 as int), depth, rest, c2, m - c1);
                }
            }
        }
    }
}

/// A truncated run of bare values is an incomplete read.
proof fn lemma_strict_values_truncated(
    s: Seq<u8>,
    n: nat,
    depth: nat,
    vals: Seq<SpecScriptDataValue>,
    c: nat,
    m: int,
)
    requires
        spec_strict_values(s, n, depth) == SpecParse::Complete(vals, c),
        0 <= m < c,
    ensures
        spec_strict_values(s.take(m), n, depth) matches SpecParse::Incomplete(_),
    decreases s.len(), 1int,
{
    lemma_strict_values_len(s, n, depth);
    if n != 0 {
        if let SpecParse::Complete(v, c1) = spec_script_data_value(s, depth) {
            lemma_script_data_value_len(s, depth);
            if let SpecParse::Complete(rest, c2) = spec_strict_values(
                s.skip(c1 as int),
                (n - 1) as nat,
                depth,
            ) {
                if m < c1 {
                    lemma_value_truncated(s, depth, v, c1, m);
                } else {
                    assert(s.take(m).subrange(0, c1 as int) =~= s.subrange(0, c1 as int));
                    lemma_value_extends(s, depth, s.take(m), v, c1);
                    lemma_take_skip(s, m, c1 as int);
                    lemma_strict_values_truncated(
                        s.skip(c1 as int),
                        (n - 1) as nat,
                        depth,
                        rest,
                        c2,
                        m - c1,
                    );
                }
            }
        }
    }
}

/// A truncated ECMA array payload is an incomplete read.
proof fn lemma_ecma_array_truncated(
    s: Seq<u8>,
    depth: nat,
    objs: Seq<SpecScriptDataObject>,
    c: nat,
    m: int,
)
    requires
        spec_script_data_ecma_array(s, depth) == SpecParse::Complete(objs, c),
        0 <= m < c,
    ensures
        spec_script_data_ecma_array(s.take(m), depth) matches SpecParse::Incomplete(_),
    decreases s.len(), 1int,
{
    lemma_script_data_ecma_array_len(s, depth);
    if m >= 4 {
        if let SpecParse::Complete(rest, c2) = spec_script_data_objects(s.skip(4), depth) {
            lemma_take_skip(s, m, 4);
            lemma_objects_truncated(s.skip(4), depth, rest, c2, m - 4);
        }
    }
}

/// A truncated strict array payload is an incomplete read.
proof fn lemma_strict_array_truncated(
    s: Seq<u8>,
    depth: nat,
    vals: Seq<SpecScriptDataValue>,
    c: nat,
    m: int,
)
    requires
        spec_script_data_strict_array(s, depth) == SpecParse::Complete(vals, c),
        0 <= m < c,
    ensures
        spec_script_data_strict_array(s.take(m), depth) matches SpecParse::Incomplete(_),
    decreases s.len(), 1int,
{
    lemma_script_data_strict_array_len(s, depth);
    if m >= 4 {
        assert(s.take(m).subrange(0, 4) =~= s.subrange(0, 4));
        let n = crate::fields::be_u32(s.subrange(0, 4)) as nat;
        if let SpecParse::Complete(rest, c2) = spec_strict_values(s.skip(4), n, depth) {
            lemma_take_skip(s, m, 4);
            lemma_strict_values_truncated(s.skip(4), n, depth, rest, c2, m - 4);
        }
    }
}

/// Restartability of metadata value decoding.  A strict prefix of a
/// completely decodable value is reported incomplete, never as a
/// failure, and the decode reads nothing past the consumed count, so
/// re-decoding with the full bytes gives the same value again.
pub proof fn lemma_script_data_value_restartable(
    s: Seq<u8>,
    depth: nat,
    v: SpecScriptDataValue,
    c: nat,
    m: int,
)
    requires
        spec_script_data_value(s, depth) == SpecParse::Complete(v, c),
        0 <= m < c,
    ensures
        c <= s.len(),
        spec_script_data_value(s.take(m), depth) matches SpecParse::Incomplete(_),
        spec_script_data_value(s.take(c as int), depth) == SpecParse::Complete(v, c),
{
    lemma_script_data_value_len(s, depth);
    lemma_value_truncated(s, depth, v, c, m);
    assert(s.take(c as int).subrange(0, c as int) =~= s.subrange(0, c as int));
    lemma_value_extends(s, depth, s.take(c as int), v, c);
}

/// Restartability of entry list decoding.  In particular, cutting the
/// closing terminator off an otherwise complete entry list turns the
/// result into an incomplete read, never a failure: the terminator may
/// simply not have arrived yet.
pub proof fn lemma_script_data_objects_restartable(
    s: Seq<u8>,
    depth: nat,
    objs: Seq<SpecScriptDataObject>,
    c: nat,
    m: int,
)
    requires
        spec_script_data_objects(s, depth) == SpecParse::Complete(objs, c),
        0 <= m < c,
    ensures
        c <= s.len(),
        spec_script_data_objects(s.take(m), depth) matches SpecParse::Incomplete(_),
        spec_script_data_objects(s.take(c as int), depth) == SpecParse::Complete(objs, c),
{
    lemma_script_data_objects_len(s, depth);
    lemma_objects_truncated(s, depth, objs, c, m);
    assert(s.take(c as int).subrange(0, c as int) =~= s.subrange(0, c as int));
    lemma_objects_extends(s, depth, s.take(c as int), objs, c);
}

/// Restartability of whole metadata records: a strict prefix is
/// reported incomplete, and the decode reads nothing past the consumed
/// count.
pub proof fn lemma_script_data_restartable(
    s: Seq<u8>,
    sd: crate::model::SpecScriptData,
    c: nat,
    m: int,
)
    requires
        spec_script_data(s) == SpecParse::Complete(sd, c),
        0 <= m < c,
    ensures
        c <= s.len(),
        spec_script_data(s.take(m)) matches SpecParse::Incomplete(_),
        spec_script_data(s.take(c as int)) == SpecParse::Complete(sd, c),
{
    if let SpecParse::Complete(name, c1) = spec_script_data_string(s.skip(1)) {
        if let SpecParse::Complete(v, c2) = spec_script_data_value(s.skip(1 + c1 as int), 0) {
            lemma_script_data_value_len(s.skip(1 + c1 as int), 0);
            // A strict prefix stops inside the name or inside the value.
            if m >= 1 {
                assert(s.take(m)[0] == s[0]);
                if m - 1 < c1 {
                    lemma_take_skip(s, m, 1);
                    lemma_string_truncated(s.skip(1), name, c1, m - 1);
                } else {
                    lemma_take_skip(s, m, 1);
                    assert(s.take(m).skip(1).subrange(0, c1 as int) =~= s.skip(1).subrange(
                        0,
                        c1 as int,
                    ));
                    lemma_string_extends(s.skip(1), s.take(m).skip(1), name, c1);
                    lemma_take_skip(s, m, 1 + c1 as int);
                    lemma_value_truncated(s.skip(1 + c1 as int), 0, v, c2, m - 1 - c1);
                }
            }
            // The consumed prefix alone decodes to the same record.
            let q = s.take(c as int);
            assert(q[0] == s[0]);
            lemma_take_skip(s, c as int, 1);
            assert(q.skip(1).subrange(0, c1 as int) =~= s.skip(1).subrange(0, c1 as int));
            lemma_string_extends(s.skip(1), q.skip(1), name, c1);
            lemma_take_skip(s, c as int, 1 + c1 as int);
            assert(q.skip(1 + c1 as int).subrange(0, c2 as int) =~= s.skip(
                1 + c1 as int,
            ).subrange(0, c2 as int));
            lemma_value_extends(s.skip(1 + c1 as int), 0, q.skip(1 + c1 as int), v, c2);
        }
    }
}

/// A declared payload size of zero is a hard failure for audio and
/// video tags, never an incomplete read: the mandatory leading byte
/// cannot exist.
pub proof fn lemma_zero_size_payload_fails(s: Seq<u8>)
    ensures
        spec_audio_data(s, 0) == SpecParse::<SpecAudioData>::Failure(ParseError::ShortPayload),
        spec_video_data(s, 0) == SpecParse::<SpecVideoData>::Failure(ParseError::ShortPayload),
        s.len() >= 11 && (s[0] == 8 || s[0] == 9) && be_u24(s.subrange(1, 4)) == 0
            ==> spec_complete_tag(s) == SpecParse::<SpecTag>::Failure(ParseError::ShortPayload),
{
}

} // verus!
