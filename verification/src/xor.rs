//! The transform engine: byte-wise exclusive-or of a payload against a
//! non-empty pad, cycled by modulo indexing.

use crate::cli::CliError;
use vstd::prelude::*;

verus! {

/// The byte at position `i` of the transformed sequence: the input byte
/// combined with the pad byte at `i` modulo the pad length.
pub open spec fn xored_byte(input: Seq<u8>, pad: Seq<u8>, i: int) -> u8
    recommends
        pad.len() > 0,
        0 <= i < input.len(),
{
    input[i] ^ pad[i % (pad.len() as int)]
}

/// The transform of `input` against `pad`: a sequence of the same length as
/// `input` whose byte at each position `i` is `input[i] ^ pad[i % pad.len()]`.
pub open spec fn transform_spec(input: Seq<u8>, pad: Seq<u8>) -> Seq<u8>
    recommends
        pad.len() > 0,
{
    Seq::new(input.len(), |i: int| xored_byte(input, pad, i))
}

/// Applying the transform twice with the same pad gives back the original
/// input: XOR is self-inverse, so the transform is its own inverse.
pub proof fn lemma_transform_involutive(input: Seq<u8>, pad: Seq<u8>)
    requires
        pad.len() > 0,
    ensures
        transform_spec(transform_spec(input, pad), pad) == input,
{
    let once = transform_spec(input, pad);
    let twice = transform_spec(once, pad);
    assert forall|i: int| 0 <= i < input.len() implies twice[i] == input[i] by {
        let p: u8 = pad[i % (pad.len() as int)];
        let a: u8 = input[i];
        assert((a ^ p) ^ p == a) by (bit_vector);
    }
    assert(twice =~= input);
}

/// The transform keeps the length of its input.
pub proof fn lemma_transform_len(input: Seq<u8>, pad: Seq<u8>)
    ensures
        transform_spec(input, pad).len() == input.len(),
{
}

/// The transform of the empty sequence is empty, for any pad.
pub proof fn lemma_transform_empty(pad: Seq<u8>)
    requires
        pad.len() > 0,
    ensures
        transform_spec(Seq::<u8>::empty(), pad) == Seq::<u8>::empty(),
{
    assert(transform_spec(Seq::<u8>::empty(), pad) =~= Seq::<u8>::empty());
}

/// Computes `output[i] = input[i] XOR pad[i mod pad.len()]` for every
/// position of `input`, in one left-to-right pass.
pub fn transform(input: &Vec<u8>, pad: &Vec<u8>) -> (output: Vec<u8>)
    requires
        pad.len() > 0,
    ensures
        output@ == transform_spec(input@, pad@),
        output@.len() == input@.len(),
{
    let mut output: Vec<u8> = Vec::new();
    let mut i: usize = 0;
    while i < input.len()
        invariant
            i <= input.len(),
            pad.len() > 0,
            output@.len() == i,
            forall|j: int| 0 <= j < i ==> output@[j] == xored_byte(input@, pad@, j),
        decreases input.len() - i,
    {
        let b = input[i] ^ pad[i % pad.len()];
        output.push(b);
        i = i + 1;
    }
    proof {
        assert(output@ =~= transform_spec(input@, pad@));
    }
    output
}

/// Validates the pad, then transforms: succeeds with the transformed bytes
/// exactly when the pad is non-empty, and reports the empty pad otherwise.
pub fn checked_transform(input: &Vec<u8>, pad: &Vec<u8>) -> (r: Result<Vec<u8>, CliError>)
    ensures
        pad@.len() > 0 ==> (r matches Ok(output) && output@ == transform_spec(input@, pad@)),
        pad@.len() == 0 ==> r == Err::<Vec<u8>, CliError>(CliError::EmptyPad),
{
    if pad.len() == 0 {
        Err(CliError::EmptyPad)
    } else {
        Ok(transform(input, pad))
    }
}

} // verus!
