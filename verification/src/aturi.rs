//! AT-URIs: the DID that an AT-URI names its repository by.

use vstd::prelude::*;
use vstd::utf8::*;

verus! {

/// The number of bytes in the scheme prefix `at://`.
pub const AT_SCHEME_LEN: usize = 5;

/// The byte that ends the authority part of an AT-URI.
pub const SLASH: u8 = 0x2f;

/// The bytes before the first slash, or all of them where there is none.
pub open spec fn before_slash(bytes: Seq<u8>) -> Seq<u8> {
    match bytes.index_of_first(SLASH) {
        Some(end) => bytes.take(end),
        None => bytes,
    }
}

/// What follows the scheme prefix, up to the next slash; nothing where the
/// text is no longer than the prefix.
pub open spec fn did_bytes(aturi: Seq<u8>) -> Seq<u8> {
    if aturi.len() <= AT_SCHEME_LEN {
        Seq::empty()
    } else {
        before_slash(aturi.skip(AT_SCHEME_LEN as int))
    }
}

/// The text that `did_bytes` cuts out of an AT-URI.
pub open spec fn did_of(aturi: Seq<char>) -> Seq<char> {
    decode_utf8(did_bytes(encode_utf8(aturi)))
}

/// Whether the text is too short to hold a DID, or can be cut behind the
/// scheme prefix without splitting a character.
pub open spec fn has_did(aturi: Seq<char>) -> bool {
    let bytes = encode_utf8(aturi);
    bytes.len() <= AT_SCHEME_LEN || is_char_boundary(bytes, AT_SCHEME_LEN as int)
}

/// Tells whether `did_from_aturi` can be called on the text.
pub fn has_did_part(aturi: &str) -> (r: bool)
    ensures
        r == has_did(aturi@),
{
    let bytes = aturi.as_bytes();
    bytes.len() <= AT_SCHEME_LEN || aturi.is_char_boundary(AT_SCHEME_LEN)
}

/// The DID of an AT-URI: what stands between the scheme prefix and the slash
/// in front of the collection. The prefix is skipped by its length alone.
pub fn did_from_aturi(aturi: &str) -> (did: String)
    requires
        has_did(aturi@),
    ensures
        did@ == did_of(aturi@),
{
    broadcast use {encode_utf8_valid_utf8, encode_utf8_decode_utf8};

    let aturi_len: usize = aturi.as_bytes().len();
    if aturi_len <= AT_SCHEME_LEN {
        assert(did_bytes(encode_utf8(aturi@)) =~= encode_utf8(Seq::<char>::empty()));
        return String::new();
    }
    let (_, rest) = aturi.split_at(AT_SCHEME_LEN);
    let bytes = rest.as_bytes();
    let mut end: usize = 0;
    while end < bytes.len() && bytes[end] != SLASH
        invariant
            end <= bytes@.len(),
            forall|i: int| 0 <= i < end ==> bytes@[i] != SLASH,
        decreases bytes@.len() - end,
    {
        end = end + 1;
    }
    proof {
        bytes@.index_of_first_ensures(SLASH);
        if end < bytes@.len() {
            assert(is_leading_byte_width_1(bytes@[end as int]));
            is_char_boundary_iff_is_leading_byte(bytes@, end as int);
        } else {
            is_char_boundary_start_end_of_seq(bytes@);
        }
        assert(bytes@.take(end as int) =~= before_slash(bytes@));
        assert(encode_utf8(aturi@).skip(AT_SCHEME_LEN as int) =~= bytes@);
    }
    let (did, _) = rest.split_at(end);
    assert(encode_utf8(did@) =~= before_slash(bytes@));
    did.to_owned()
}

/// Encoding two texts one after the other is encoding their concatenation.
proof fn lemma_encode_concat(a: Seq<char>, b: Seq<char>)
    ensures
        encode_utf8(a + b) == encode_utf8(a) + encode_utf8(b),
    decreases a.len(),
{
    if a.len() == 0 {
        assert(a + b =~= b);
        assert(encode_utf8(a) + encode_utf8(b) =~= encode_utf8(b));
    } else {
        assert((a + b).drop_first() =~= a.drop_first() + b);
        lemma_encode_concat(a.drop_first(), b);
        assert(encode_utf8(a + b) =~= encode_utf8(a) + encode_utf8(b));
    }
}

/// A slash byte occurs in an encoding only where the text holds a slash.
proof fn lemma_slash_free(text: Seq<char>)
    requires
        !text.contains('/'),
    ensures
        !encode_utf8(text).contains(SLASH),
    decreases text.len(),
{
    if text.len() > 0 {
        let c = text[0] as u32;
        let rest = text.drop_first();
        assert forall|i: int| 0 <= i < rest.len() implies rest[i] != '/' by {
            assert(rest[i] == text[i + 1]);
        }
        lemma_slash_free(rest);
        assert(text[0] != '/');
        char_is_scalar(text[0]);
        char_u32_cast(text[0], c);
        assert(c != 0x2f);
        if has_width_1_encoding(c) {
            assert(leading_byte_width_1(c) != 0x2f) by (bit_vector)
                requires
                    has_width_1_encoding(c),
                    c != 0x2f,
            ;
        } else {
            assert(leading_byte_width_2(c) != 0x2f) by (bit_vector);
            assert(leading_byte_width_3(c) != 0x2f) by (bit_vector);
            assert(leading_byte_width_4(c) != 0x2f) by (bit_vector);
            assert(last_continuation_byte(c) != 0x2f) by (bit_vector);
            assert(second_last_continuation_byte(c) != 0x2f) by (bit_vector);
            assert(third_last_continuation_byte(c) != 0x2f) by (bit_vector);
        }
        let head = encode_scalar(c);
        assert(!head.contains(SLASH));
        assert forall|i: int| 0 <= i < encode_utf8(text).len() implies encode_utf8(text)[i] != SLASH by {
            if i < head.len() {
                assert(encode_utf8(text)[i] == head[i]);
            } else {
                assert(encode_utf8(text)[i] == encode_utf8(rest)[i - head.len()]);
            }
        }
    }
}

/// Where a text holds a slash, its encoding holds a slash byte.
proof fn lemma_slash_is_encoded(text: Seq<char>)
    requires
        text.contains('/'),
    ensures
        encode_utf8(text).contains(SLASH),
{
    let i = choose|i: int| 0 <= i < text.len() && text[i] == '/';
    let slash = seq!['/'];
    is_ascii_chars_encode_utf8(slash);
    assert(slash[0] as u8 == encode_utf8(slash)[0]);
    assert(text =~= text.take(i) + slash + text.skip(i + 1));
    lemma_encode_concat(text.take(i) + slash, text.skip(i + 1));
    lemma_encode_concat(text.take(i), slash);
    assert(encode_utf8(text)[encode_utf8(text.take(i)).len() as int] == SLASH);
}

/// The bytes that are cut out of an AT-URI are a text.
proof fn lemma_did_bytes_are_text(aturi: Seq<char>)
    requires
        has_did(aturi),
    ensures
        valid_utf8(did_bytes(encode_utf8(aturi))),
{
    let bytes = encode_utf8(aturi);
    encode_utf8_valid_utf8(aturi);
    if bytes.len() > AT_SCHEME_LEN {
        let rest = bytes.skip(AT_SCHEME_LEN as int);
        assert(rest =~= bytes.subrange(AT_SCHEME_LEN as int, bytes.len() as int));
        valid_utf8_split(bytes, AT_SCHEME_LEN as int);
        rest.index_of_first_ensures(SLASH);
        if let Some(end) = rest.index_of_first(SLASH) {
            assert(is_leading_byte_width_1(rest[end]));
            is_char_boundary_iff_is_leading_byte(rest, end);
            valid_utf8_split(rest, end);
            assert(rest.take(end) =~= rest.subrange(0, end));
        }
    }
}

/// A DID holds no slash.
pub proof fn law_did_holds_no_slash(aturi: Seq<char>)
    requires
        has_did(aturi),
    ensures
        !did_of(aturi).contains('/'),
{
    let bytes = encode_utf8(aturi);
    let cut = did_bytes(bytes);
    lemma_did_bytes_are_text(aturi);
    decode_utf8_encode_utf8(cut);
    if bytes.len() > AT_SCHEME_LEN {
        bytes.skip(AT_SCHEME_LEN as int).index_of_first_ensures(SLASH);
    }
    assert(!cut.contains(SLASH));
    if did_of(aturi).contains('/') {
        lemma_slash_is_encoded(did_of(aturi));
    }
}

/// A path does not change the DID: a text that reaches behind the scheme can be
/// followed by a slash and anything.
pub proof fn law_path_is_not_read(aturi: Seq<char>, path: Seq<char>)
    requires
        encode_utf8(aturi).len() >= AT_SCHEME_LEN,
        has_did(aturi),
    ensures
        has_did(aturi + "/"@ + path),
        did_of(aturi + "/"@ + path) == did_of(aturi),
{
    reveal_strlit("/");
    let bytes = encode_utf8(aturi);
    let slash = encode_utf8("/"@);
    let full_text = aturi + "/"@ + path;
    let full = encode_utf8(full_text);
    is_ascii_chars_encode_utf8("/"@);
    assert("/"@[0] as u8 == slash[0]);
    lemma_encode_concat(aturi + "/"@, path);
    lemma_encode_concat(aturi, "/"@);
    encode_utf8_valid_utf8(aturi);
    encode_utf8_valid_utf8(full_text);

    let at = AT_SCHEME_LEN as int;
    if bytes.len() > AT_SCHEME_LEN {
        assert(full[at] == bytes[at]);
        is_char_boundary_iff_not_is_continuation_byte(bytes, at);
        is_char_boundary_iff_not_is_continuation_byte(full, at);
    } else {
        assert(full_text =~= aturi + ("/"@ + path));
        lemma_prefix_is_boundary(aturi, "/"@ + path);
    }

    let rest = bytes.skip(at);
    let tail = full.skip(at);
    assert(tail =~= rest + slash + encode_utf8(path));
    rest.index_of_first_ensures(SLASH);
    tail.index_of_first_ensures(SLASH);
    assert(tail[rest.len() as int] == SLASH);
    let end = tail.index_of_first(SLASH)->0;
    match rest.index_of_first(SLASH) {
        Some(i) => {
            assert(tail[i] == rest[i]);
            if end < i {
                assert(rest[end] == tail[end]);
            }
            assert(end == i);
        },
        None => {
            if end < rest.len() {
                assert(rest[end] == tail[end]);
            }
            assert(end == rest.len());
        },
    }
    assert(tail.take(end) =~= before_slash(rest));
    assert(did_bytes(full) =~= did_bytes(bytes)) by {
        if bytes.len() == AT_SCHEME_LEN {
            assert(tail.take(end) =~= Seq::<u8>::empty());
        }
    }
}

/// The bytes in the place of the scheme never change the DID: texts that agree
/// behind it have the same DID.
pub proof fn law_scheme_is_not_read(aturi: Seq<char>, other: Seq<char>)
    requires
        encode_utf8(aturi).len() >= AT_SCHEME_LEN,
        encode_utf8(other).len() >= AT_SCHEME_LEN,
        encode_utf8(aturi).skip(AT_SCHEME_LEN as int) == encode_utf8(other).skip(
            AT_SCHEME_LEN as int,
        ),
    ensures
        did_of(aturi) == did_of(other),
{
    let rest = encode_utf8(aturi).skip(AT_SCHEME_LEN as int);
    assert(rest.len() == encode_utf8(aturi).len() - AT_SCHEME_LEN);
    assert(rest.len() == encode_utf8(other).len() - AT_SCHEME_LEN);
}

/// The characters before the first slash, or all of them where there is none.
pub open spec fn chars_before_slash(text: Seq<char>) -> Seq<char> {
    match text.index_of_first('/') {
        Some(end) => text.take(end),
        None => text,
    }
}

/// In an ASCII text a byte is a character: the DID is what stands from the
/// sixth character up to the next slash.
pub proof fn law_did_of_ascii_text(aturi: Seq<char>)
    requires
        is_ascii_chars(aturi),
    ensures
        has_did(aturi),
        did_of(aturi) == if aturi.len() <= AT_SCHEME_LEN {
            Seq::empty()
        } else {
            chars_before_slash(aturi.skip(AT_SCHEME_LEN as int))
        },
{
    is_ascii_chars_encode_utf8(aturi);
    let bytes = encode_utf8(aturi);
    if aturi.len() <= AT_SCHEME_LEN {
        assert(did_bytes(bytes) =~= encode_utf8(Seq::<char>::empty()));
        encode_utf8_decode_utf8(Seq::<char>::empty());
    } else {
        let rest = aturi.skip(AT_SCHEME_LEN as int);
        let rest_bytes = bytes.skip(AT_SCHEME_LEN as int);
        assert(aturi =~= aturi.take(AT_SCHEME_LEN as int) + rest);
        lemma_prefix_is_boundary(aturi.take(AT_SCHEME_LEN as int), rest);
        is_ascii_chars_encode_utf8(aturi.take(AT_SCHEME_LEN as int));
        assert forall|i: int| 0 <= i < rest.len() implies rest_bytes[i] == rest[i] as u8 by {
            assert(bytes[i + AT_SCHEME_LEN] == aturi[i + AT_SCHEME_LEN] as u8);
        }
        rest.index_of_first_ensures('/');
        rest_bytes.index_of_first_ensures(SLASH);
        let cut = chars_before_slash(rest);
        is_ascii_chars_encode_utf8(cut);
        match rest.index_of_first('/') {
            Some(end) => {
                assert(rest_bytes[end] == SLASH);
                let byte_end = rest_bytes.index_of_first(SLASH)->0;
                assert(rest[byte_end] == '/') by {
                    assert(rest_bytes[byte_end] == rest[byte_end] as u8);
                }
                assert(byte_end == end);
            },
            None => {
                if rest_bytes.contains(SLASH) {
                    let i = choose|i: int| 0 <= i < rest_bytes.len() && rest_bytes[i] == SLASH;
                    assert(rest[i] == '/');
                }
            },
        }
        assert(did_bytes(bytes) =~= encode_utf8(cut)) by {
            assert forall|i: int| 0 <= i < cut.len() implies encode_utf8(cut)[i]
                == rest_bytes[i] by {
                assert(cut[i] == rest[i]);
            }
        }
        encode_utf8_decode_utf8(cut);
    }
}

/// The DID is read back from every AT-URI that is built on it: `at://`, the
/// DID, and either nothing more or a slash and any path.
pub proof fn law_did_is_read_back(did: Seq<char>, path: Seq<char>)
    requires
        !did.contains('/'),
    ensures
        has_did("at://"@ + did),
        did_of("at://"@ + did) == did,
        has_did("at://"@ + did + "/"@ + path),
        did_of("at://"@ + did + "/"@ + path) == did,
{
    reveal_strlit("at://");
    reveal_strlit("/");
    let scheme = "at://"@;
    is_ascii_chars_encode_utf8(scheme);
    is_ascii_chars_encode_utf8("/"@);
    let head = encode_utf8(scheme);
    let name = encode_utf8(did);
    let slash = encode_utf8("/"@);
    assert(head.len() == AT_SCHEME_LEN);
    assert(slash.len() == 1 && slash[0] == SLASH) by {
        assert("/"@[0] as u8 == slash[0]);
    }
    lemma_slash_free(did);
    encode_utf8_decode_utf8(did);

    lemma_encode_concat(scheme, did);
    let short = encode_utf8(scheme + did);
    assert(short.skip(AT_SCHEME_LEN as int) =~= name);
    name.index_of_first_ensures(SLASH);
    if name.len() == 0 {
        assert(did_bytes(short) =~= name);
    }
    lemma_prefix_is_boundary(scheme, did);

    let full_text = scheme + did + "/"@ + path;
    lemma_encode_concat(scheme + did + "/"@, path);
    lemma_encode_concat(scheme + did, "/"@);
    let full = encode_utf8(full_text);
    let tail = full.skip(AT_SCHEME_LEN as int);
    assert(tail =~= name + slash + encode_utf8(path));
    assert(tail[name.len() as int] == SLASH);
    tail.index_of_first_ensures(SLASH);
    assert(tail.index_of_first(SLASH) == Some(name.len() as int)) by {
        let end = tail.index_of_first(SLASH)->0;
        if end < name.len() {
            assert(name[end] == tail[end]);
        }
    }
    assert(tail.take(name.len() as int) =~= name);
    assert(full_text =~= scheme + (did + "/"@ + path));
    lemma_prefix_is_boundary(scheme, did + "/"@ + path);
}

/// Where one text ends and another begins, their joint encoding can be cut.
proof fn lemma_prefix_is_boundary(a: Seq<char>, b: Seq<char>)
    ensures
        is_char_boundary(encode_utf8(a + b), encode_utf8(a).len() as int),
    decreases a.len(),
{
    encode_utf8_valid_utf8(a + b);
    if a.len() > 0 {
        let text = a + b;
        assert(text.drop_first() =~= a.drop_first() + b);
        lemma_prefix_is_boundary(a.drop_first(), b);
        encode_utf8_first_scalar(text);
        assert(pop_first_scalar(encode_utf8(text)) =~= encode_utf8(a.drop_first() + b));
        lemma_encode_concat(a, b);
    }
}

/// A text can be cut behind the scheme prefix where it is no longer than that,
/// or where the byte there begins a character.
proof fn lemma_boundary_behind_scheme(aturi: Seq<char>)
    ensures
        has_did(aturi) <==> !(encode_utf8(aturi).len() > 5 && 0x80 <= encode_utf8(aturi)[5] < 0xc0),
{
    let bytes = encode_utf8(aturi);
    encode_utf8_valid_utf8(aturi);
    if bytes.len() > 5 {
        is_char_boundary_iff_not_is_continuation_byte(bytes, 5);
        let byte = bytes[5];
        assert(is_continuation_byte(byte) <==> 0x80 <= byte < 0xc0) by (bit_vector);
    }
}

/// What is cut out of an AT-URI lies behind its first five bytes and reaches to
/// the next slash, or to the end where there is none; a text that ends before
/// has nothing to cut out.
pub proof fn law_did_reaches_to_the_slash(aturi: &str, did: String)
    requires
        call_ensures(did_from_aturi, (aturi,), did),
        encode_utf8(aturi@).len() > 5 ==> !(0x80 <= encode_utf8(aturi@)[5] < 0xc0),
    ensures
        ({
            let bytes = encode_utf8(aturi@);
            let rest = bytes.skip(5);
            let cut = encode_utf8(did@);
            &&& bytes.len() <= 5 ==> did@.len() == 0
            &&& bytes.len() > 5 ==> {
                &&& cut.is_prefix_of(rest)
                &&& forall|i: int| 0 <= i < cut.len() ==> #[trigger] cut[i] != 0x2f
                &&& cut.len() == rest.len() || rest[cut.len() as int] == 0x2f
            }
        }),
{
    let bytes = encode_utf8(aturi@);
    lemma_boundary_behind_scheme(aturi@);
    lemma_did_bytes_are_text(aturi@);
    decode_utf8_encode_utf8(did_bytes(bytes));
    if bytes.len() > AT_SCHEME_LEN {
        bytes.skip(AT_SCHEME_LEN as int).index_of_first_ensures(SLASH);
    } else {
        assert(did_bytes(bytes) =~= encode_utf8(Seq::<char>::empty()));
        encode_utf8_decode_utf8(Seq::<char>::empty());
    }
}

/// A text has no DID part just where its fifth byte is followed by the inside of
/// a character.
pub proof fn law_only_split_characters_have_no_did(aturi: &str, r: bool)
    requires
        call_ensures(has_did_part, (aturi,), r),
    ensures
        !r <==> encode_utf8(aturi@).len() > 5 && 0x80 <= encode_utf8(aturi@)[5] < 0xc0,
        r ==> call_requires(did_from_aturi, (aturi,)),
{
    lemma_boundary_behind_scheme(aturi@);
}

} // verus!
