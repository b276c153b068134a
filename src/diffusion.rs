//! Diffusion sweep: how many digest bits flip between consecutive step counts.
use vstd::prelude::*;
use crate::bits::distance;
use crate::md5::{MD5Digest, md5_rounds, md5_rounds_spec};
use crate::sha1::{SHA1Digest, sha1_rounds, sha1_rounds_spec};

verus! {

/// The message for input number `x` of a sweep: its two low bytes,
/// least significant first.
pub open spec fn sweep_input(x: int) -> Seq<u8> {
    seq![(x % 256) as u8, ((x / 256) % 256) as u8]
}

/// Bits that flip in the MD5 digest of input `x` between `r - 1` and `r`
/// steps per block.
pub open spec fn md5_change(x: int, r: nat) -> nat {
    distance(md5_rounds_spec(sweep_input(x), (r - 1) as nat), md5_rounds_spec(sweep_input(x), r))
}

/// Sum of `md5_change(x, r)` over the inputs `x` below `n`.
pub open spec fn md5_total(n: nat, r: nat) -> nat
    decreases n,
{
    if n == 0 {
        0
    } else {
        md5_total((n - 1) as nat, r) + md5_change(n - 1, r)
    }
}

/// Sweeps the inputs `0..inputs`, each as two little-endian bytes, and for
/// every step count `r` from 2 to `ceiling` sums over the inputs the bits
/// that flip in the MD5 digest between `r - 1` and `r` steps. Entry `j`
/// of the result belongs to `r = j + 2`; each lies between 0 and 128
/// times the number of inputs.
pub fn md5_diffusion(inputs: u32, ceiling: usize) -> (r: Vec<u64>)
    requires
        inputs <= 0x10000,
        1 <= ceiling,
    ensures
        r@.len() == ceiling - 1,
        forall|j: int| 0 <= j < r@.len() ==> #[trigger] r@[j] == md5_total(inputs as nat, (j + 2) as nat),
        forall|j: int| 0 <= j < r@.len() ==> #[trigger] r@[j] <= 128 * inputs,
{
    let mut totals: Vec<u64> = Vec::new();
    while totals.len() < ceiling - 1
        invariant
            totals@.len() <= ceiling - 1,
            forall|j: int| 0 <= j < totals@.len() ==> #[trigger] totals@[j] == 0,
        decreases ceiling - 1 - totals@.len(),
    {
        totals.push(0);
    }
    let mut x: u32 = 0;
    while x < inputs
        invariant
            x <= inputs <= 0x10000,
            1 <= ceiling,
            totals@.len() == ceiling - 1,
            forall|j: int| 0 <= j < totals@.len() ==> #[trigger] totals@[j] == md5_total(x as nat, (j + 2) as nat),
            forall|j: int| 0 <= j < totals@.len() ==> #[trigger] totals@[j] <= 128 * x,
        decreases inputs - x,
    {
        let input: [u8; 2] = [(x % 256) as u8, ((x / 256) % 256) as u8];
        assert(input@ =~= sweep_input(x as int));
        let mut previous = md5_rounds(input.as_slice(), 1);
        let mut j: usize = 0;
        while j < ceiling - 1
            invariant
                j <= ceiling - 1,
                x < inputs <= 0x10000,
                input@ == sweep_input(x as int),
                previous@ == md5_rounds_spec(sweep_input(x as int), (j + 1) as nat),
                totals@.len() == ceiling - 1,
                forall|i: int| 0 <= i < j ==> #[trigger] totals@[i] == md5_total((x + 1) as nat, (i + 2) as nat),
                forall|i: int| j <= i < totals@.len() ==> #[trigger] totals@[i] == md5_total(x as nat, (i + 2) as nat),
                forall|i: int| 0 <= i < j ==> #[trigger] totals@[i] <= 128 * (x + 1),
                forall|i: int| j <= i < totals@.len() ==> #[trigger] totals@[i] <= 128 * x,
            decreases ceiling - 1 - j,
        {
            let hash = md5_rounds(input.as_slice(), j + 2);
            let d = previous.diff_with(&hash);
            proof {
                MD5Digest::lemma_diff_laws(&previous, &hash);
            }
            let t = totals[j] + d as u64;
            totals.set(j, t);
            previous = hash;
            j = j + 1;
        }
        x = x + 1;
    }
    totals
}

/// Bits that flip in the SHA1 digest of input `x` between `r - 1` and `r`
/// steps per block.
pub open spec fn sha1_change(x: int, r: nat) -> nat {
    distance(sha1_rounds_spec(sweep_input(x), (r - 1) as nat), sha1_rounds_spec(sweep_input(x), r))
}

/// Sum of `sha1_change(x, r)` over the inputs `x` below `n`.
pub open spec fn sha1_total(n: nat, r: nat) -> nat
    decreases n,
{
    if n == 0 {
        0
    } else {
        sha1_total((n - 1) as nat, r) + sha1_change(n - 1, r)
    }
}

/// Sweeps the inputs `0..inputs`, each as two little-endian bytes, and for
/// every step count `r` from 2 to `ceiling` sums over the inputs the bits
/// that flip in the SHA1 digest between `r - 1` and `r` steps. Entry `j`
/// of the result belongs to `r = j + 2`; each lies between 0 and 160
/// times the number of inputs.
pub fn sha1_diffusion(inputs: u32, ceiling: usize) -> (r: Vec<u64>)
    requires
        inputs <= 0x10000,
        1 <= ceiling,
        ceiling <= 80,
    ensures
        r@.len() == ceiling - 1,
        forall|j: int| 0 <= j < r@.len() ==> #[trigger] r@[j] == sha1_total(inputs as nat, (j + 2) as nat),
        forall|j: int| 0 <= j < r@.len() ==> #[trigger] r@[j] <= 160 * inputs,
{
    let mut totals: Vec<u64> = Vec::new();
    while totals.len() < ceiling - 1
        invariant
            totals@.len() <= ceiling - 1,
            forall|j: int| 0 <= j < totals@.len() ==> #[trigger] totals@[j] == 0,
        decreases ceiling - 1 - totals@.len(),
    {
        totals.push(0);
    }
    let mut x: u32 = 0;
    while x < inputs
        invariant
            x <= inputs <= 0x10000,
            1 <= ceiling,
            ceiling <= 80,
            totals@.len() == ceiling - 1,
            forall|j: int| 0 <= j < totals@.len() ==> #[trigger] totals@[j] == sha1_total(x as nat, (j + 2) as nat),
            forall|j: int| 0 <= j < totals@.len() ==> #[trigger] totals@[j] <= 160 * x,
        decreases inputs - x,
    {
        let input: [u8; 2] = [(x % 256) as u8, ((x / 256) % 256) as u8];
        assert(input@ =~= sweep_input(x as int));
        let mut previous = sha1_rounds(input.as_slice(), 1);
        let mut j: usize = 0;
        while j < ceiling - 1
            invariant
                j <= ceiling - 1,
                x < inputs <= 0x10000,
            ceiling <= 80,
                input@ == sweep_input(x as int),
                previous@ == sha1_rounds_spec(sweep_input(x as int), (j + 1) as nat),
                totals@.len() == ceiling - 1,
                forall|i: int| 0 <= i < j ==> #[trigger] totals@[i] == sha1_total((x + 1) as nat, (i + 2) as nat),
                forall|i: int| j <= i < totals@.len() ==> #[trigger] totals@[i] == sha1_total(x as nat, (i + 2) as nat),
                forall|i: int| 0 <= i < j ==> #[trigger] totals@[i] <= 160 * (x + 1),
                forall|i: int| j <= i < totals@.len() ==> #[trigger] totals@[i] <= 160 * x,
            decreases ceiling - 1 - j,
        {
            let hash = sha1_rounds(input.as_slice(), j + 2);
            let d = previous.diff_with(&hash);
            proof {
                SHA1Digest::lemma_diff_laws(&previous, &hash);
            }
            let t = totals[j] + d as u64;
            totals.set(j, t);
            previous = hash;
            j = j + 1;
        }
        x = x + 1;
    }
    totals
}

} // verus!
