//! What holds of the store as a whole: theorems that relate its operations.

use crate::decimal::{
    all_digits, decimal_digits, integer_value, is_digit, lemma_decimal_digits,
    lemma_decimal_digits_len, lemma_zero_padded, power_of_ten, zero_padded,
};
use crate::error::StoreError;
use crate::hex::is_digest_text;
use crate::kind::{kind_name, kind_named, ObjectType};
use crate::object::{
    canonical_encoding, decode_result, header_fields, load_result, object_digest, parsed_object,
    rendered_text, ObjectView,
};
use crate::text::{
    is_plain_byte, lemma_skip_one_space, lemma_skip_spaces_stays, lemma_skip_token_run,
    lemma_space_width_of_suffix, lemma_until_nul, next_token, space_width, token_and_rest,
    two_tokens, until_nul, NUL, SPACE,
};
use crate::tree::{
    entry_line, first_entry, followed_by, mode_kind, tree_listing, EntryView, MODE_WIDTH,
    RAW_DIGEST_LEN,
};
use crate::zlib::zlib_inflated;
use vstd::prelude::*;
use vstd::utf8::{decode_utf8, valid_utf8};

verus! {

/// The header that is written for an object declares its kind and its size.
pub proof fn lemma_header_declares(kind: ObjectType, size: nat)
    ensures
        header_fields(kind_name(kind) + seq![SPACE] + decimal_digits(size)) == Some((kind, size)),
{
    let name = kind_name(kind);
    let digits = decimal_digits(size);
    let h = name + seq![SPACE] + digits;
    lemma_decimal_digits(size);
    assert(name.len() == 4);
    assert forall|k: int| 0 <= k < 4 implies space_width(h, k) == 0 by {
        assert(h[k] == name[k]);
        assert(is_plain_byte(name[k]));
    }
    assert(h[4] == SPACE);
    assert forall|k: int| 5 <= k < h.len() implies space_width(h, k) == 0 by {
        assert(h[k] == digits[k - 5]);
        assert(is_digit(digits[k - 5]));
    }
    lemma_skip_spaces_stays(h, 0);
    lemma_skip_token_run(h, 0, 4);
    lemma_skip_one_space(h, 4);
    lemma_skip_token_run(h, 5, h.len() as int);
    lemma_skip_spaces_stays(h, h.len() as int);
    assert(h.subrange(0, 4) =~= name);
    assert(h.subrange(5, h.len() as int) =~= digits);
    assert(two_tokens(h) == Some((name, digits)));
    assert(kind_name(ObjectType::Blob)[0] != kind_name(ObjectType::Tree)[0]);
    assert(kind_named(name) == Some(kind));
}

/// Decoding inverts encoding: the canonical encoding of an object of any kind
/// and payload parses to that kind and that payload.
pub proof fn lemma_parse_inverts_encoding(kind: ObjectType, payload: Seq<u8>)
    ensures
        parsed_object(canonical_encoding(kind, payload)) == Some((kind, payload)),
{
    let h = kind_name(kind) + seq![SPACE] + decimal_digits(payload.len());
    let plain = canonical_encoding(kind, payload);
    let n = h.len() as int;
    lemma_decimal_digits(payload.len());
    assert(plain =~= h + seq![NUL] + payload);
    assert forall|k: int| 0 <= k < n implies plain[k] != NUL by {
        assert(plain[k] == h[k]);
        if k < 4 {
            assert(h[k] == kind_name(kind)[k]);
        } else if k == 4 {
        } else {
            assert(h[k] == decimal_digits(payload.len())[k - 5]);
            assert(is_digit(decimal_digits(payload.len())[k - 5]));
        }
    }
    assert(plain[n] == NUL);
    lemma_until_nul(plain, n);
    assert(plain.take(n) =~= h);
    lemma_header_declares(kind, payload.len());
    assert(plain.subrange(n + 1, n + 1 + payload.len()) =~= payload);
}

/// An object that was stored is loaded again as it was: whatever bytes
/// decompress to the canonical encoding of an object load, under its digest,
/// as an object of the same kind, size and payload; and a blob of valid UTF-8
/// text renders as that text.
pub proof fn lemma_store_then_load(
    kind: ObjectType,
    payload: Seq<u8>,
    stored: Seq<u8>,
    name_only: bool,
)
    ensures
        ({
            let digest = object_digest(kind, payload);
            is_digest_text(digest) && zlib_inflated(stored) == Some(
                canonical_encoding(kind, payload),
            ) ==> load_result(digest, Some(stored)) == Ok::<ObjectView, StoreError>(
                ObjectView { digest, kind, size: payload.len(), payload },
            )
        }),
        valid_utf8(payload) ==> rendered_text(ObjectType::Blob, payload, name_only) == Some(
            decode_utf8(payload),
        ),
{
    lemma_parse_inverts_encoding(kind, payload);
}

/// The digest depends on the kind and on the bytes of the payload alone:
/// objects of one kind that hold the same bytes have one digest.
pub proof fn lemma_same_content_same_digest(kind: ObjectType, first: Seq<u8>, second: Seq<u8>)
    requires
        first.len() == second.len(),
        forall|i: int| 0 <= i < first.len() ==> first[i] == second[i],
    ensures
        object_digest(kind, first) == object_digest(kind, second),
{
    assert(first =~= second);
}

/// An object whose file the store does not hold is not found, whatever its digest.
pub proof fn lemma_missing_object_is_not_found(digest: Seq<char>)
    ensures
        load_result(digest, None) == Err::<ObjectView, StoreError>(StoreError::NotFound),
{
}

/// Decompressed bytes without a NUL byte are no object.
pub proof fn lemma_no_nul_is_malformed(digest: Seq<char>, plain: Seq<u8>)
    requires
        forall|i: int| 0 <= i < plain.len() ==> plain[i] != NUL,
    ensures
        parsed_object(plain) is None,
        is_digest_text(digest) ==> decode_result(digest, Some(plain)) == Err::<
            ObjectView,
            StoreError,
        >(StoreError::MalformedObject),
{
    lemma_until_nul(plain, plain.len() as int);
}

/// Decompressed bytes whose header holds no token, or one token only, are no object.
pub proof fn lemma_few_tokens_is_malformed(digest: Seq<char>, plain: Seq<u8>)
    requires
        ({
            let header = plain.take(until_nul(plain) as int);
            let (a, b) = next_token(header, 0);
            let (c, d) = next_token(header, b);
            a == b || c == d
        }),
    ensures
        parsed_object(plain) is None,
        is_digest_text(digest) ==> decode_result(digest, Some(plain)) == Err::<
            ObjectView,
            StoreError,
        >(StoreError::MalformedObject),
{
}

/// The record that a tree's payload holds for `entry`: the mode in decimal, a
/// space, the name, a NUL byte and the raw digest.
pub open spec fn entry_record(entry: EntryView) -> Seq<u8> {
    decimal_digits(entry.mode) + seq![SPACE] + entry.name + seq![NUL] + entry.child_digest
}

/// Whether `entry` can be written as a record and read back: its mode is
/// supported, its name is valid UTF-8, not empty, free of NUL bytes and does
/// not start with whitespace, and its raw digest has 20 bytes.
pub open spec fn is_writable_entry(entry: EntryView) -> bool {
    &&& mode_kind(entry.mode) is Some
    &&& valid_utf8(entry.name)
    &&& entry.name.len() > 0
    &&& forall|i: int| 0 <= i < entry.name.len() ==> entry.name[i] != NUL
    &&& space_width(entry.name, 0) == 0
    &&& entry.child_digest.len() == RAW_DIGEST_LEN
}

/// The record of an entry reads back as that entry, whatever follows it.
pub proof fn lemma_record_reads_back(entry: EntryView, rest: Seq<u8>)
    requires
        is_writable_entry(entry),
    ensures
        first_entry(entry_record(entry) + rest) == Some((entry, entry_record(entry).len())),
{
    let digits = decimal_digits(entry.mode);
    let h = digits + seq![SPACE] + entry.name;
    let bytes = entry_record(entry) + rest;
    let m = digits.len() as int;
    let n = h.len() as int;
    lemma_decimal_digits(entry.mode);
    assert(bytes =~= h + seq![NUL] + entry.child_digest + rest);
    assert forall|k: int| 0 <= k < n implies bytes[k] != NUL by {
        assert(bytes[k] == h[k]);
        if k < m {
            assert(h[k] == digits[k]);
            assert(is_digit(digits[k]));
        } else if k == m {
        } else {
            assert(h[k] == entry.name[k - m - 1]);
        }
    }
    assert(bytes[n] == NUL);
    lemma_until_nul(bytes, n);
    assert(bytes.take(n) =~= h);
    assert forall|k: int| 0 <= k < m implies space_width(h, k) == 0 by {
        assert(h[k] == digits[k]);
        assert(is_digit(digits[k]));
    }
    assert(h[m] == SPACE);
    assert(space_width(h, m + 1) == 0) by {
        lemma_space_width_of_suffix(h, m + 1, 0);
        assert(h.skip(m + 1) =~= entry.name);
    }
    lemma_skip_spaces_stays(h, 0);
    lemma_skip_token_run(h, 0, m);
    lemma_skip_one_space(h, m);
    assert(h.subrange(0, m) =~= digits);
    assert(h.subrange(m + 1, n) =~= entry.name);
    assert(token_and_rest(h) == Some((digits, entry.name)));
    assert(bytes.subrange(n + 1, n + 1 + RAW_DIGEST_LEN) =~= entry.child_digest);
}

/// A listing keeps the order of the payload: the line of the first record
/// comes first, and the listing of what follows the record follows it.
pub proof fn lemma_listing_keeps_order(entry: EntryView, rest: Seq<u8>, name_only: bool)
    requires
        is_writable_entry(entry),
    ensures
        tree_listing(entry_record(entry) + rest, name_only) == followed_by(
            entry_line(entry, name_only),
            tree_listing(rest, name_only),
        ),
{
    let record = entry_record(entry);
    lemma_record_reads_back(entry, rest);
    assert((record + rest).skip(record.len() as int) =~= rest);
}

/// A mode below a million renders as exactly six digits, which denote it:
/// a shorter mode gets zeros in front, and no mode is changed by them.
pub proof fn lemma_mode_rendering(mode: nat)
    requires
        mode < 1_000_000,
    ensures
        zero_padded(mode, MODE_WIDTH as nat).len() == MODE_WIDTH,
        all_digits(zero_padded(mode, MODE_WIDTH as nat)),
        integer_value(zero_padded(mode, MODE_WIDTH as nat)) == Some(mode as int),
{
    lemma_zero_padded(mode, MODE_WIDTH as nat);
    assert(power_of_ten(6) == 1_000_000) by {
        reveal_with_fuel(power_of_ten, 7);
    }
    lemma_decimal_digits_len(mode, MODE_WIDTH as nat);
}

/// An entry of a mode other than the four supported ones makes the whole
/// listing fail, whatever precedes or follows it in its header.
pub proof fn lemma_unsupported_mode_is_malformed(payload: Seq<u8>, name_only: bool)
    requires
        payload.len() > 0,
        ({
            let header = payload.take(until_nul(payload) as int);
            match token_and_rest(header) {
                Some((mode, name)) => match integer_value(mode) {
                    Some(m) => m < 0 || mode_kind(m as nat) is None,
                    None => true,
                },
                None => true,
            }
        }),
    ensures
        tree_listing(payload, name_only) is None,
{
}

} // verus!
