use vstd::prelude::*;

verus! {

/// Bit pattern of the silent sample `0.0`.
pub const SILENCE: u32 = 0u32;

/// Number of queued samples that one device callback consumes.
pub open spec fn samples_served(output_len: nat, queued_len: nat) -> nat {
    if output_len < queued_len {
        output_len
    } else {
        queued_len
    }
}

/// Fill one device buffer from the playback queue.
///
/// The buffer receives the oldest queued samples, in order, as far as
/// the queue reaches, and silence after them; the samples handed to the
/// device leave the queue.
pub fn fill_output(output: &mut [u32], queue: &mut Vec<u32>)
    ensures
        ({
            let n = samples_served(old(output)@.len(), old(queue)@.len());
            &&& final(output)@ == old(queue)@.take(n as int) + Seq::new(
                (old(output)@.len() - n) as nat,
                |i: int| SILENCE,
            )
            &&& final(queue)@ == old(queue)@.skip(n as int)
        }),
        final(output)@.len() == old(output)@.len(),
        old(queue)@.len() <= old(output)@.len() ==> {
            &&& final(output)@.subrange(0, old(queue)@.len() as int) == old(queue)@
            &&& final(queue)@.len() == 0
        },
        old(output)@.len() <= old(queue)@.len() ==> {
            &&& final(output)@ == old(queue)@.subrange(0, old(output)@.len() as int)
            &&& final(queue)@ == old(queue)@.subrange(
                old(output)@.len() as int,
                old(queue)@.len() as int,
            )
        },
        forall|i: int|
            old(queue)@.len() <= i < old(output)@.len() ==> #[trigger] final(output)@[i] == SILENCE,
{
    let samples_to_copy = if output.len() < queue.len() {
        output.len()
    } else {
        queue.len()
    };
    let ghost old_output = output@;
    let ghost old_queue = queue@;
    let mut i: usize = 0;
    while i < output.len()
        invariant
            samples_to_copy <= old_queue.len(),
            samples_to_copy <= old_output.len(),
            queue@ == old_queue,
            output@.len() == old_output.len(),
            i <= output@.len(),
            forall|j: int| 0 <= j < i && j < samples_to_copy ==> output@[j] == old_queue[j],
            forall|j: int| 0 <= j < i && j >= samples_to_copy ==> output@[j] == SILENCE,
        decreases output@.len() - i,
    {
        if i < samples_to_copy {
            output[i] = queue[i];
        } else {
            output[i] = SILENCE;
        }
        i = i + 1;
    }
    let rest = queue.split_off(samples_to_copy);
    *queue = rest;
    assert(output@ =~= old_queue.take(samples_to_copy as int) + Seq::new(
        (old_output.len() - samples_to_copy) as nat,
        |i: int| SILENCE,
    ));
    assert(queue@ =~= old_queue.skip(samples_to_copy as int));
    assert(output@.subrange(0, samples_to_copy as int) =~= old_queue.subrange(0, samples_to_copy as int));
    assert(old_queue.subrange(0, old_queue.len() as int) =~= old_queue);
    assert(old_queue.skip(samples_to_copy as int) =~= old_queue.subrange(samples_to_copy as int, old_queue.len() as int));
}

/// One callback serves as many queued samples as both the device
/// buffer and the queue allow: no more than either, and all of one of
/// them. A non-empty queue and a non-empty device buffer always move at
/// least one sample, and a queue no longer than the device buffer is
/// played whole.
pub proof fn law_callback_serves_min(output_len: nat, queued_len: nat)
    ensures
        samples_served(output_len, queued_len) <= output_len,
        samples_served(output_len, queued_len) <= queued_len,
        samples_served(output_len, queued_len) == output_len || samples_served(
            output_len,
            queued_len,
        ) == queued_len,
        output_len > 0 && queued_len > 0 ==> samples_served(output_len, queued_len) > 0,
        queued_len <= output_len ==> samples_served(output_len, queued_len) == queued_len,
        output_len <= queued_len ==> samples_served(output_len, queued_len) == output_len,
{
}

/// Every queued sample reaches the device once and in order: what one
/// callback plays, followed by what stays queued, is the queue it found.
pub proof fn law_fill_output_conserves_queue(queue: Seq<u32>, output_len: nat)
    ensures
        ({
            let n = samples_served(output_len, queue.len());
            queue.take(n as int) + queue.skip(n as int) == queue
        }),
{
    let n = samples_served(output_len, queue.len());
    assert(queue.take(n as int) + queue.skip(n as int) =~= queue);
}

} // verus!
