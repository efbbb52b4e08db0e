use vstd::prelude::*;
use crate::encoding::right_encode_spec;
use crate::{
    chaining_values, chunk, chunk_count, final_node_post, final_node_pre, k12_output, tree_input,
    turbo_shake128, KangarooTwelve, Reader, CHUNK_LEN, FINAL_NODE_DOMAIN, SINGLE_NODE_DOMAIN,
};

verus! {

/// An instance made without a customization and one made with an empty
/// customization give the same output for the same message.
pub proof fn lemma_default_is_empty_customization(
    a: KangarooTwelve,
    b: KangarooTwelve,
    len: nat,
)
    requires
        a.message() == b.message(),
        a.customization().len() == 0,
        b.customization().len() == 0,
    ensures
        k12_output(a.message(), a.customization(), len) == k12_output(
            b.message(),
            b.customization(),
            len,
        ),
{
    assert(a.customization() =~= b.customization());
}

/// A shorter output is a prefix of a longer one for the same message and
/// customization.
pub proof fn lemma_output_prefix(message: Seq<u8>, customization: Seq<u8>, short: nat, long: nat)
    requires
        short <= long,
    ensures
        k12_output(message, customization, short) == k12_output(
            message,
            customization,
            long,
        ).subrange(0, short as int),
{
    assert(k12_output(message, customization, short) =~= k12_output(
        message,
        customization,
        long,
    ).subrange(0, short as int));
}

/// Where message, customization and the customization's encoded length fit
/// in one chunk, the output is TurboSHAKE128 of that string under the
/// single-node domain byte.
pub proof fn lemma_single_chunk(message: Seq<u8>, customization: Seq<u8>, len: nat)
    requires
        message.len() + customization.len() + right_encode_spec(customization.len()).len()
            <= CHUNK_LEN,
    ensures
        k12_output(message, customization, len) == turbo_shake128(
            SINGLE_NODE_DOMAIN,
            tree_input(message, customization),
            len,
        ),
{
    let s = tree_input(message, customization);
    assert(s.len() > 0);
    assert((s.len() - 1) as nat / CHUNK_LEN as nat == 0);
}

/// Where the input makes exactly two chunks, the final node counts one
/// trailing chunk, encoded as `[1, 1]`.
pub proof fn lemma_two_chunks(message: Seq<u8>, customization: Seq<u8>, len: nat)
    requires
        chunk_count(tree_input(message, customization).len()) == 2,
    ensures
        ({
            let s = tree_input(message, customization);
            k12_output(message, customization, len) == turbo_shake128(
                FINAL_NODE_DOMAIN,
                chunk(s, 0) + final_node_pre() + chaining_values(s, 1) + seq![1u8, 1u8]
                    + final_node_post(),
                len,
            )
        }),
{
    let s = tree_input(message, customization);
    reveal_with_fuel(crate::encoding::be_bytes, 3);
    assert(right_encode_spec(1) =~= seq![1u8, 1u8]);
}

/// A reader gives its output once: `read` leaves its reader finished, and a
/// finished reader admits no further read.
pub proof fn lemma_read_once(reader: Reader)
    requires
        reader.is_finished(),
    ensures
        !reader.can_read(),
{
}

} // verus!
