use crate::domain::crypto::{strings_view, AirgapProvider};
use vstd::prelude::*;

verus! {

/// The UR encoder of the `ur` crate, carried through opaque.
#[verifier::external_type_specification]
#[verifier::external_body]
pub struct ExUrEncoder<'a>(ur::Encoder<'a>);

/// The message that a UR encoder holds.
pub uninterp spec fn ur_encoder_message(e: ur::Encoder<'static>) -> Seq<u8>;

/// The maximum fragment length that a UR encoder was made with.
pub uninterp spec fn ur_encoder_limit(e: ur::Encoder<'static>) -> nat;

/// How many parts a UR encoder has emitted (`current_index`).
pub uninterp spec fn ur_encoder_emitted(e: ur::Encoder<'static>) -> nat;

/// The UR text that `next_part` gives for the part numbered `sequence` (from 1)
/// of a `bytes` encoder of `message` with fragments of at most `limit` bytes.
pub uninterp spec fn ur_part(message: Seq<u8>, limit: nat, sequence: nat) -> Seq<char>;

/// The decimal digits of `n`, as `{}` formats it.
pub open spec fn decimal(n: nat) -> Seq<char>
    decreases n,
{
    if n < 10 {
        seq![(48 + n) as char]
    } else {
        decimal(n / 10) + seq![(48 + n % 10) as char]
    }
}

/// The head of the UR text of part `sequence` of `count`: `ur:bytes/`, the
/// sequence number, `-`, the count and `/`; the bytewords body follows it.
pub open spec fn ur_part_head(sequence: nat, count: nat) -> Seq<char> {
    "ur:bytes/"@ + decimal(sequence) + "-"@ + decimal(count) + "/"@
}

/// Every part `i` of `parts` starts with the head of part `i + 1` of all of them.
pub open spec fn ur_parts_numbered(parts: Seq<Seq<char>>) -> bool {
    forall|i: int|
        0 <= i < parts.len() ==> #[trigger] ur_part_head((i + 1) as nat, parts.len()).is_prefix_of(
            parts[i],
        )
}

/// `a / b`, rounded up.
pub open spec fn div_ceil(a: nat, b: nat) -> nat {
    if a % b > 0 {
        a / b + 1
    } else {
        a / b
    }
}

/// The number of fragments that a message of `len` bytes is split into with
/// fragments of at most `limit` bytes: the fragment length is the message
/// spread evenly over `div_ceil(len, limit)` fragments, rounded up.
pub open spec fn ur_fragment_total(len: nat, limit: nat) -> nat {
    div_ceil(len, div_ceil(len, div_ceil(len, limit)))
}

/// The message with which an empty message is refused.
pub open spec fn ur_empty_message() -> Seq<char> {
    "fountain: expected non-empty message"@
}

/// The message with which a zero fragment length is refused.
pub open spec fn ur_zero_limit() -> Seq<char> {
    "fountain: expected positive maximum fragment length"@
}

/// `ur::Encoder::bytes(message, max_fragment_length)`, the error turned into
/// its message. Claimed, as the source shows: it fails exactly on an empty
/// message (checked first) or a zero length, with the `Display` text of the
/// error; else the encoder holds the message and the limit and has emitted
/// nothing.
#[verifier::external_body]
fn ur_encoder(message: &[u8], max_fragment_length: usize) -> (r: Result<
    ur::Encoder<'static>,
    String,
>)
    ensures
        match r {
            Ok(e) => {
                &&& message@.len() > 0 && max_fragment_length > 0
                &&& ur_encoder_message(e) == message@
                &&& ur_encoder_limit(e) == max_fragment_length
                &&& ur_encoder_emitted(e) == 0
            },
            Err(s) => if message@.len() == 0 {
                s@ == ur_empty_message()
            } else {
                max_fragment_length == 0 && s@ == ur_zero_limit()
            },
        },
{
    match ur::Encoder::bytes(message, max_fragment_length) {
        Ok(e) => Ok(e),
        Err(e) => Err(e.to_string()),
    }
}

/// `Encoder::fragment_count`: the number of fragments of the held message.
#[verifier::external_body]
fn ur_fragment_count(e: &ur::Encoder<'static>) -> (n: usize)
    ensures
        n == ur_fragment_total(ur_encoder_message(*e).len(), ur_encoder_limit(*e)),
{
    e.fragment_count()
}

/// `Encoder::next_part`: the next part, named by `ur_part`. Claimed, as the
/// source shows: it never fails (the CBOR of the part is written into a `Vec`,
/// whose writer cannot fail), and its text starts with `ur:bytes/`, the
/// sequence number, `-`, the encoder's fragment count and `/`. The encoder
/// keeps its message and limit and counts the part.
#[verifier::external_body]
fn ur_next_part(e: &mut ur::Encoder<'static>) -> (r: Result<String, String>)
    requires
        ur_encoder_emitted(*old(e)) < usize::MAX,
    ensures
        ur_encoder_message(*final(e)) == ur_encoder_message(*old(e)),
        ur_encoder_limit(*final(e)) == ur_encoder_limit(*old(e)),
        ur_encoder_emitted(*final(e)) == ur_encoder_emitted(*old(e)) + 1,
        r matches Ok(p) && p@ == ur_part(
            ur_encoder_message(*old(e)),
            ur_encoder_limit(*old(e)),
            ur_encoder_emitted(*old(e)) + 1,
        ),
        ur_part_head(
            ur_encoder_emitted(*old(e)) + 1,
            ur_fragment_total(ur_encoder_message(*old(e)).len(), ur_encoder_limit(*old(e))),
        ).is_prefix_of(
            ur_part(
                ur_encoder_message(*old(e)),
                ur_encoder_limit(*old(e)),
                ur_encoder_emitted(*old(e)) + 1,
            ),
        ),
{
    match e.next_part() {
        Ok(p) => Ok(p),
        Err(err) => Err(err.to_string()),
    }
}

/// The UR fragments of `data` with fragments of at most `limit` bytes: one
/// part per fragment, in order; only empty data or a zero limit is refused.
pub open spec fn ur_fragments(data: Seq<u8>, limit: nat) -> Result<Seq<Seq<char>>, Seq<char>> {
    if data.len() == 0 {
        Err(ur_empty_message())
    } else if limit == 0 {
        Err(ur_zero_limit())
    } else {
        Ok(
            Seq::new(
                ur_fragment_total(data.len(), limit),
                |i: int| ur_part(data, limit, (i + 1) as nat),
            ),
        )
    }
}

/// `a / b` rounded up is positive for positive `a` and `b`.
pub proof fn lemma_div_ceil_pos(a: nat, b: nat)
    requires
        a > 0,
        b > 0,
    ensures
        div_ceil(a, b) >= 1,
{
    if a % b == 0 {
        assert(a / b >= 1) by (nonlinear_arith)
            requires
                a > 0,
                b > 0,
                a % b == 0,
        {
            assert(a == b * (a / b) + a % b);
        }
    }
}

/// Non-empty data is split into at least one fragment.
pub proof fn lemma_fragment_total_pos(len: nat, limit: nat)
    requires
        len > 0,
        limit > 0,
    ensures
        ur_fragment_total(len, limit) >= 1,
{
    lemma_div_ceil_pos(len, limit);
    lemma_div_ceil_pos(len, div_ceil(len, limit));
    lemma_div_ceil_pos(len, div_ceil(len, div_ceil(len, limit)));
}

/// The largest fragment carried by one UR part.
pub const MAX_FRAGMENT_LENGTH: usize = 200;

/// Airgap adapter: Uniform Resources (`ur:bytes`) with fragments of at most
/// `MAX_FRAGMENT_LENGTH` bytes.
pub struct UrAdapter;

impl AirgapProvider for UrAdapter {
    open spec fn fragments(&self, data: Seq<u8>) -> Result<Seq<Seq<char>>, Seq<char>> {
        ur_fragments(data, MAX_FRAGMENT_LENGTH as nat)
    }

    /// Non-empty data always yields its parts, at least one, each headed by its
    /// number and the count.
    fn encode_to_ur(&self, data: &[u8]) -> (r: Result<Vec<String>, String>)
        ensures
            data@.len() > 0 ==> r is Ok,
            r matches Ok(v) ==> v@.len() == ur_fragment_total(
                data@.len(),
                MAX_FRAGMENT_LENGTH as nat,
            ) && v@.len() >= 1 && ur_parts_numbered(strings_view(v@)),
            r matches Ok(v) ==> forall|i: int|
                0 <= i < v@.len() ==> (#[trigger] v@[i])@ == ur_part(
                    data@,
                    MAX_FRAGMENT_LENGTH as nat,
                    (i + 1) as nat,
                ),
    {
        let mut encoder = match ur_encoder(data, MAX_FRAGMENT_LENGTH) {
            Ok(e) => e,
            Err(e) => return Err(e),
        };
        let count = ur_fragment_count(&encoder);
        let ghost limit = MAX_FRAGMENT_LENGTH as nat;
        proof {
            lemma_fragment_total_pos(data@.len(), limit);
        }
        let mut fragments: Vec<String> = Vec::new();
        let mut i: usize = 0;
        assert(strings_view(fragments@) =~= seq![]);
        while i < count
            invariant
                i <= count,
                data@.len() > 0,
                limit == MAX_FRAGMENT_LENGTH as nat,
                count == ur_fragment_total(data@.len(), limit),
                ur_encoder_message(encoder) == data@,
                ur_encoder_limit(encoder) == limit,
                ur_encoder_emitted(encoder) == i,
                strings_view(fragments@) =~= Seq::new(
                    i as nat,
                    |j: int| ur_part(data@, limit, (j + 1) as nat),
                ),
                forall|j: int|
                    0 <= j < i ==> #[trigger] ur_part_head((j + 1) as nat, count as nat).is_prefix_of(
                        ur_part(data@, limit, (j + 1) as nat),
                    ),
            decreases count - i,
        {
            let fragment = match ur_next_part(&mut encoder) {
                Ok(f) => f,
                Err(e) => return Err(e),
            };
            let ghost before = fragments@;
            fragments.push(fragment);
            assert(strings_view(fragments@) =~= strings_view(before).push(fragment@));
            i += 1;
        }
        proof {
            let v = strings_view(fragments@);
            assert forall|j: int| 0 <= j < fragments@.len() implies (#[trigger] fragments@[j])@
                == ur_part(data@, limit, (j + 1) as nat) by {
                assert(fragments@[j]@ == v[j]);
            }
            assert forall|j: int| 0 <= j < v.len() implies #[trigger] ur_part_head(
                (j + 1) as nat,
                v.len(),
            ).is_prefix_of(v[j]) by {
                assert(v[j] == ur_part(data@, limit, (j + 1) as nat));
            }
        }
        Ok(fragments)
    }
}

/// The UR parts of non-empty data carry that data, all of it: part `i + 1`
/// of the count is the part that an encoder of exactly `data` (fragments of at
/// most 200 bytes) emits as number `i + 1`, and there is one part per fragment.
pub proof fn law_fragments_carry_the_data(data: Seq<u8>)
    requires
        data.len() > 0,
    ensures
        UrAdapter.fragments(data) matches Ok(v) && v.len() == ur_fragment_total(data.len(), 200)
            && v.len() >= 1 && forall|i: int|
            0 <= i < v.len() ==> #[trigger] v[i] == ur_part(data, 200, (i + 1) as nat),
{
    lemma_fragment_total_pos(data.len(), 200);
}

} // verus!
