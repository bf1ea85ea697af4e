//! Error correction codewords.

use crate::bits::{
    bytes_to_bits, lemma_bytes_to_bits_injective, lemma_bytes_to_bits_len, zeros, BitStream,
};
use crate::info;
use crate::info::{DATA_BITS, DATA_CODEWORDS, EC_CODEWORDS};
use crate::version::{Version, SUPPORTED_VERSION};
use vstd::prelude::*;

verus! {

/// Error correction level. This profile supports level L alone.
#[derive(Debug, Copy, Clone, PartialEq, Eq, Structural)]
pub enum ECLevel {
    /// Recovers 7% of the data.
    L,
}

/// The two-bit level indicator (not the order of the levels).
pub open spec fn ecl_bits(e: ECLevel) -> Seq<bool> {
    match e {
        ECLevel::L => seq![false, true],
    }
}

impl ECLevel {
    /// Returns the bit encoding of the level.
    pub fn to_bitvec(&self) -> (r: BitStream)
        ensures
            r@ == ecl_bits(*self),
    {
        match self {
            ECLevel::L => {
                let mut r = BitStream::new();
                r.push(false);
                r.push(true);
                r
            },
        }
    }
}

/// Powers of two in GF(256) with the QR reduction polynomial 0x11D:
/// entry `i` is 2 to the `i`.
pub open spec fn exp_seq() -> Seq<u8> {
    seq![
        1, 2, 4, 8, 16, 32, 64, 128, 29, 58, 116, 232, 205, 135, 19, 38, 76, 152, 45, 90, 180,
        117, 234, 201, 143, 3, 6, 12, 24, 48, 96, 192, 157, 39, 78, 156, 37, 74, 148, 53, 106,
        212, 181, 119, 238, 193, 159, 35, 70, 140, 5, 10, 20, 40, 80, 160, 93, 186, 105, 210, 185,
        111, 222, 161, 95, 190, 97, 194, 153, 47, 94, 188, 101, 202, 137, 15, 30, 60, 120, 240,
        253, 231, 211, 187, 107, 214, 177, 127, 254, 225, 223, 163, 91, 182, 113, 226, 217, 175,
        67, 134, 17, 34, 68, 136, 13, 26, 52, 104, 208, 189, 103, 206, 129, 31, 62, 124, 248, 237,
        199, 147, 59, 118, 236, 197, 151, 51, 102, 204, 133, 23, 46, 92, 184, 109, 218, 169, 79,
        158, 33, 66, 132, 21, 42, 84, 168, 77, 154, 41, 82, 164, 85, 170, 73, 146, 57, 114, 228,
        213, 183, 115, 230, 209, 191, 99, 198, 145, 63, 126, 252, 229, 215, 179, 123, 246, 241,
        255, 227, 219, 171, 75, 150, 49, 98, 196, 149, 55, 110, 220, 165, 87, 174, 65, 130, 25,
        50, 100, 200, 141, 7, 14, 28, 56, 112, 224, 221, 167, 83, 166, 81, 162, 89, 178, 121, 242,
        249, 239, 195, 155, 43, 86, 172, 69, 138, 9, 18, 36, 72, 144, 61, 122, 244, 245, 247, 243,
        251, 235, 203, 139, 11, 22, 44, 88, 176, 125, 250, 233, 207, 131, 27, 54, 108, 216, 173,
        71, 142, 1,
    ]
}

/// Discrete logarithms in GF(256), the inverse of `exp_seq` on 1 to 255.
pub open spec fn log_seq() -> Seq<u8> {
    seq![
        255, 0, 1, 25, 2, 50, 26, 198, 3, 223, 51, 238, 27, 104, 199, 75, 4, 100, 224, 14, 52,
        141, 239, 129, 28, 193, 105, 248, 200, 8, 76, 113, 5, 138, 101, 47, 225, 36, 15, 33, 53,
        147, 142, 218, 240, 18, 130, 69, 29, 181, 194, 125, 106, 39, 249, 185, 201, 154, 9, 120,
        77, 228, 114, 166, 6, 191, 139, 98, 102, 221, 48, 253, 226, 152, 37, 179, 16, 145, 34,
        136, 54, 208, 148, 206, 143, 150, 219, 189, 241, 210, 19, 92, 131, 56, 70, 64, 30, 66,
        182, 163, 195, 72, 126, 110, 107, 58, 40, 84, 250, 133, 186, 61, 202, 94, 155, 159, 10,
        21, 121, 43, 78, 212, 229, 172, 115, 243, 167, 87, 7, 112, 192, 247, 140, 128, 99, 13,
        103, 74, 222, 237, 49, 197, 254, 24, 227, 165, 153, 119, 38, 184, 180, 124, 17, 68, 146,
        217, 35, 32, 137, 46, 55, 63, 209, 91, 149, 188, 207, 205, 144, 135, 151, 178, 220, 252,
        190, 97, 242, 86, 211, 171, 20, 42, 93, 158, 132, 60, 57, 83, 71, 109, 65, 162, 31, 45,
        67, 216, 183, 123, 164, 118, 196, 23, 73, 236, 127, 12, 111, 246, 108, 161, 59, 82, 41,
        157, 85, 170, 251, 96, 134, 177, 187, 204, 62, 90, 203, 89, 95, 176, 156, 169, 160, 81,
        11, 245, 22, 235, 122, 117, 44, 215, 79, 174, 213, 233, 230, 231, 173, 232, 116, 214, 244,
        234, 168, 80, 88, 175,
    ]
}

/// The generator polynomial of degree 15, as the exponents of its
/// coefficients after the leading one.
pub open spec fn gen_poly() -> Seq<u8> {
    seq![8, 183, 61, 91, 202, 37, 51, 58, 58, 237, 140, 124, 5, 99, 105]
}

/// The bits appended after the codewords, for each version.
pub open spec fn remainder_seq() -> Seq<usize> {
    seq![
        0, 7, 7, 7, 7, 7, 0, 0, 0, 0, 0, 0, 0, 3, 3, 3, 3, 3, 3, 3, 4, 4, 4, 4, 4, 4, 4, 3, 3, 3,
        3, 3, 3, 3, 0, 0, 0, 0, 0, 0,
    ]
}

fn gf_exp(i: usize) -> (r: u8)
    requires
        i < 256,
    ensures
        r == exp_seq()[i as int],
{
    let t: [u8; 256] = [
        1, 2, 4, 8, 16, 32, 64, 128, 29, 58, 116, 232, 205, 135, 19, 38, 76, 152, 45, 90, 180,
        117, 234, 201, 143, 3, 6, 12, 24, 48, 96, 192, 157, 39, 78, 156, 37, 74, 148, 53, 106,
        212, 181, 119, 238, 193, 159, 35, 70, 140, 5, 10, 20, 40, 80, 160, 93, 186, 105, 210, 185,
        111, 222, 161, 95, 190, 97, 194, 153, 47, 94, 188, 101, 202, 137, 15, 30, 60, 120, 240,
        253, 231, 211, 187, 107, 214, 177, 127, 254, 225, 223, 163, 91, 182, 113, 226, 217, 175,
        67, 134, 17, 34, 68, 136, 13, 26, 52, 104, 208, 189, 103, 206, 129, 31, 62, 124, 248, 237,
        199, 147, 59, 118, 236, 197, 151, 51, 102, 204, 133, 23, 46, 92, 184, 109, 218, 169, 79,
        158, 33, 66, 132, 21, 42, 84, 168, 77, 154, 41, 82, 164, 85, 170, 73, 146, 57, 114, 228,
        213, 183, 115, 230, 209, 191, 99, 198, 145, 63, 126, 252, 229, 215, 179, 123, 246, 241,
        255, 227, 219, 171, 75, 150, 49, 98, 196, 149, 55, 110, 220, 165, 87, 174, 65, 130, 25,
        50, 100, 200, 141, 7, 14, 28, 56, 112, 224, 221, 167, 83, 166, 81, 162, 89, 178, 121, 242,
        249, 239, 195, 155, 43, 86, 172, 69, 138, 9, 18, 36, 72, 144, 61, 122, 244, 245, 247, 243,
        251, 235, 203, 139, 11, 22, 44, 88, 176, 125, 250, 233, 207, 131, 27, 54, 108, 216, 173,
        71, 142, 1,
    ];
    proof {
        assert(t@ =~= exp_seq());
    }
    t[i]
}

fn gf_log(i: usize) -> (r: u8)
    requires
        i < 256,
    ensures
        r == log_seq()[i as int],
{
    let t: [u8; 256] = [
        255, 0, 1, 25, 2, 50, 26, 198, 3, 223, 51, 238, 27, 104, 199, 75, 4, 100, 224, 14, 52,
        141, 239, 129, 28, 193, 105, 248, 200, 8, 76, 113, 5, 138, 101, 47, 225, 36, 15, 33, 53,
        147, 142, 218, 240, 18, 130, 69, 29, 181, 194, 125, 106, 39, 249, 185, 201, 154, 9, 120,
        77, 228, 114, 166, 6, 191, 139, 98, 102, 221, 48, 253, 226, 152, 37, 179, 16, 145, 34,
        136, 54, 208, 148, 206, 143, 150, 219, 189, 241, 210, 19, 92, 131, 56, 70, 64, 30, 66,
        182, 163, 195, 72, 126, 110, 107, 58, 40, 84, 250, 133, 186, 61, 202, 94, 155, 159, 10,
        21, 121, 43, 78, 212, 229, 172, 115, 243, 167, 87, 7, 112, 192, 247, 140, 128, 99, 13,
        103, 74, 222, 237, 49, 197, 254, 24, 227, 165, 153, 119, 38, 184, 180, 124, 17, 68, 146,
        217, 35, 32, 137, 46, 55, 63, 209, 91, 149, 188, 207, 205, 144, 135, 151, 178, 220, 252,
        190, 97, 242, 86, 211, 171, 20, 42, 93, 158, 132, 60, 57, 83, 71, 109, 65, 162, 31, 45,
        67, 216, 183, 123, 164, 118, 196, 23, 73, 236, 127, 12, 111, 246, 108, 161, 59, 82, 41,
        157, 85, 170, 251, 96, 134, 177, 187, 204, 62, 90, 203, 89, 95, 176, 156, 169, 160, 81,
        11, 245, 22, 235, 122, 117, 44, 215, 79, 174, 213, 233, 230, 231, 173, 232, 116, 214, 244,
        234, 168, 80, 88, 175,
    ];
    proof {
        assert(t@ =~= log_seq());
    }
    t[i]
}

fn gen_coef(i: usize) -> (r: u8)
    requires
        i < EC_CODEWORDS,
    ensures
        r == gen_poly()[i as int],
{
    let t: [u8; 15] = [8, 183, 61, 91, 202, 37, 51, 58, 58, 237, 140, 124, 5, 99, 105];
    proof {
        assert(t@ =~= gen_poly());
    }
    t[i]
}

fn remainder_bits(v: usize) -> (r: usize)
    requires
        v < 40,
    ensures
        r == remainder_seq()[v as int],
{
    let t: [usize; 40] = [
        0, 7, 7, 7, 7, 7, 0, 0, 0, 0, 0, 0, 0, 3, 3, 3, 3, 3, 3, 3, 4, 4, 4, 4, 4, 4, 4, 3, 3, 3,
        3, 3, 3, 3, 0, 0, 0, 0, 0, 0,
    ];
    proof {
        assert(t@ =~= remainder_seq());
    }
    t[v]
}

/// The coefficient XORed at position `k` when the term at `i`, with
/// logarithm `alpha`, is divided out.
pub open spec fn scaled_gen(i: int, alpha: int, k: int) -> u8 {
    exp_seq()[(gen_poly()[k - i - 1] + alpha) % 255]
}

/// One step of the synthetic division: if the term at `i` is nonzero, XOR
/// the generator scaled by it into the 15 terms after `i`.
pub open spec fn div_step(res: Seq<u8>, i: int) -> Seq<u8> {
    let lead = res[i];
    if lead == 0 {
        res
    } else {
        let alpha = log_seq()[lead as int] as int;
        Seq::new(
            res.len(),
            |k: int|
                if i < k <= i + 15 {
                    res[k] ^ scaled_gen(i, alpha, k)
                } else {
                    res[k]
                },
        )
    }
}

/// The first `n` steps of the synthetic division.
pub open spec fn divide(res: Seq<u8>, n: nat) -> Seq<u8>
    decreases n,
{
    if n == 0 {
        res
    } else {
        div_step(divide(res, (n - 1) as nat), n - 1)
    }
}

/// The error correction codewords of a block: the remainder of the message
/// polynomial, shifted by 15 terms, divided by the generator polynomial.
pub open spec fn ec_codewords(msg: Seq<u8>) -> Seq<u8> {
    divide(msg + Seq::new(15, |i: int| 0u8), msg.len()).subrange(
        msg.len() as int,
        msg.len() + 15int,
    )
}

/// The sum of a list of counts.
pub open spec fn sum_counts(s: Seq<usize>) -> int
    decreases s.len(),
{
    if s.len() == 0 {
        0
    } else {
        sum_counts(s.drop_last()) + s.last()
    }
}

proof fn lemma_sum_prefix(s: Seq<usize>, j: int)
    requires
        0 <= j <= s.len(),
    ensures
        0 <= sum_counts(s.subrange(0, j)) <= sum_counts(s),
    decreases s.len(),
{
    if j == s.len() {
        assert(s.subrange(0, j) =~= s);
        lemma_sum_nonneg(s);
    } else {
        assert(s.subrange(0, j) =~= s.drop_last().subrange(0, j));
        lemma_sum_prefix(s.drop_last(), j);
    }
}

proof fn lemma_sum_nonneg(s: Seq<usize>)
    ensures
        0 <= sum_counts(s),
    decreases s.len(),
{
    if s.len() > 0 {
        lemma_sum_nonneg(s.drop_last());
    }
}

/// The views of a list of byte vectors.
pub open spec fn views(v: Seq<Vec<u8>>) -> Seq<Seq<u8>> {
    v.map_values(|b: Vec<u8>| b@)
}

/// The codewords at index `i` of the first `j` blocks that are long enough.
pub open spec fn column(blocks: Seq<Seq<u8>>, i: int, j: nat) -> Seq<u8>
    decreases j,
{
    if j == 0 {
        Seq::empty()
    } else {
        column(blocks, i, (j - 1) as nat) + if i < blocks[j - 1].len() {
            seq![blocks[j - 1][i]]
        } else {
            Seq::empty()
        }
    }
}

/// Blocks interleaved by column: index 0 of each block, then index 1, and so
/// on, for the first `n` indices.
pub open spec fn interleave(blocks: Seq<Seq<u8>>, n: nat) -> Seq<u8>
    decreases n,
{
    if n == 0 {
        Seq::empty()
    } else {
        interleave(blocks, (n - 1) as nat) + column(blocks, n - 1, blocks.len())
    }
}

/// A single block interleaves to itself.
pub proof fn lemma_interleave_single(b: Seq<u8>, n: nat)
    requires
        n <= b.len(),
    ensures
        interleave(seq![b], n) == b.subrange(0, n as int),
    decreases n,
{
    if n > 0 {
        lemma_interleave_single(b, (n - 1) as nat);
        let bl = seq![b];
        assert(column(bl, n - 1, 0) =~= Seq::<u8>::empty());
        assert(column(bl, n - 1, 1) =~= seq![b[n - 1]]);
        assert(b.subrange(0, n as int) =~= b.subrange(0, n - 1) + seq![b[n - 1]]);
    } else {
        assert(b.subrange(0, 0) =~= Seq::<u8>::empty());
    }
}

/// Compute the error correction codewords of one block.
pub fn generate_ec_codewords(msg: &[u8]) -> (r: Vec<u8>)
    requires
        msg@.len() <= DATA_CODEWORDS,
    ensures
        r@ == ec_codewords(msg@),
        r@.len() == EC_CODEWORDS,
{
    let ec_count = info::block_ec_count();
    let n = msg.len();
    // res[i] is the coefficient of the term i from the top; extending the
    // vector multiplies the message polynomial by x^15.
    let mut res: Vec<u8> = Vec::new();
    let mut c: usize = 0;
    while c < n
        invariant
            n == msg@.len(),
            c <= n,
            res@ == msg@.subrange(0, c as int),
        decreases n - c,
    {
        res.push(msg[c]);
        c = c + 1;
        assert(res@ =~= msg@.subrange(0, c as int));
    }
    let mut z: usize = 0;
    while z < ec_count
        invariant
            n == msg@.len(),
            ec_count == 15,
            z <= ec_count,
            res@ == msg@ + Seq::new(z as nat, |i: int| 0u8),
        decreases ec_count - z,
    {
        res.push(0);
        z = z + 1;
        assert(res@ =~= msg@ + Seq::new(z as nat, |i: int| 0u8));
    }
    let ghost init = res@;
    let mut i: usize = 0;
    while i < n
        invariant
            n == msg@.len() <= DATA_CODEWORDS,
            ec_count == 15,
            i <= n,
            init.len() == n + 15,
            res@ == divide(init, i as nat),
            res@.len() == n + 15,
        decreases n - i,
    {
        let lead = res[i];
        let ghost prev = res@;
        if lead != 0 {
            // Multiply in log form: all powers of two are in the table.
            let alpha = gf_log(lead as usize) as usize;
            let mut j: usize = 0;
            while j < ec_count
                invariant
                    n == msg@.len() <= DATA_CODEWORDS,
                    ec_count == 15,
                    i < n,
                    j <= ec_count,
                    prev.len() == n + 15,
                    prev == divide(init, i as nat),
                    prev[i as int] == lead,
                    lead != 0,
                    alpha == log_seq()[lead as int],
                    res@ == Seq::new(
                        prev.len(),
                        |k: int|
                            if i < k <= i + j {
                                prev[k] ^ scaled_gen(i as int, alpha as int, k)
                            } else {
                                prev[k]
                            },
                    ),
                decreases ec_count - j,
            {
                let y = gen_coef(j) as usize;
                let v = res[i + 1 + j] ^ gf_exp((y + alpha) % 255);
                res.set(i + 1 + j, v);
                j = j + 1;
                assert(res@ =~= Seq::new(
                    prev.len(),
                    |k: int|
                        if i < k <= i + j {
                            prev[k] ^ scaled_gen(i as int, alpha as int, k)
                        } else {
                            prev[k]
                        },
                ));
            }
            assert(res@ =~= div_step(prev, i as int));
        }
        i = i + 1;
    }
    let mut r: Vec<u8> = Vec::new();
    let mut k: usize = 0;
    while k < ec_count
        invariant
            n == msg@.len() <= DATA_CODEWORDS,
            ec_count == 15,
            res@.len() == n + 15,
            k <= ec_count,
            r@ == res@.subrange(n as int, n + k),
        decreases ec_count - k,
    {
        r.push(res[n + k]);
        k = k + 1;
        assert(r@ =~= res@.subrange(n as int, n + k));
    }
    r
}

/// Split the data codewords into blocks of the sizes of the layout.
fn group_into_blocks(data: &Vec<u8>, layout: &Vec<usize>) -> (r: Vec<Vec<u8>>)
    requires
        sum_counts(layout@) == data@.len(),
    ensures
        r@.len() == layout@.len(),
        forall|j: int|
            0 <= j < layout@.len() ==> #[trigger] r@[j]@ == data@.subrange(
                sum_counts(layout@.subrange(0, j)),
                sum_counts(layout@.subrange(0, j)) + layout@[j],
            ),
{
    let dlen = data.len();
    let mut res: Vec<Vec<u8>> = Vec::new();
    let mut off: usize = 0;
    let mut j: usize = 0;
    while j < layout.len()
        invariant
            sum_counts(layout@) == data@.len(),
            dlen == data@.len(),
            j <= layout@.len(),
            off == sum_counts(layout@.subrange(0, j as int)),
            res@.len() == j,
            forall|q: int|
                0 <= q < j ==> #[trigger] res@[q]@ == data@.subrange(
                    sum_counts(layout@.subrange(0, q)),
                    sum_counts(layout@.subrange(0, q)) + layout@[q],
                ),
        decreases layout@.len() - j,
    {
        let block = layout[j];
        proof {
            assert(layout@.subrange(0, j + 1).drop_last() =~= layout@.subrange(0, j as int));
            lemma_sum_prefix(layout@, j + 1);
        }
        let mut block_v: Vec<u8> = Vec::new();
        let mut t: usize = 0;
        while t < block
            invariant
                off + block <= data@.len(),
                dlen == data@.len(),
                t <= block,
                block_v@ == data@.subrange(off as int, off + t),
            decreases block - t,
        {
            block_v.push(data[off + t]);
            t = t + 1;
            assert(block_v@ =~= data@.subrange(off as int, off + t));
        }
        res.push(block_v);
        off = off + block;
        j = j + 1;
    }
    res
}

/// Interleave blocks by column, over the first `width` indices.
fn interleave_blocks(blocks: &Vec<Vec<u8>>, width: usize) -> (r: Vec<u8>)
    requires
        blocks@.len() <= 1,
        forall|j: int| 0 <= j < blocks@.len() ==> (#[trigger] blocks@[j])@.len() <= DATA_CODEWORDS,
        width <= DATA_CODEWORDS,
    ensures
        r@ == interleave(views(blocks@), width as nat),
{
    let mut bytes: Vec<u8> = Vec::new();
    let mut i: usize = 0;
    while i < width
        invariant
            width <= DATA_CODEWORDS,
            i <= width,
            bytes@ == interleave(views(blocks@), i as nat),
            bytes@.len() <= i * blocks@.len(),
            blocks@.len() <= 1,
        decreases width - i,
    {
        let mut j: usize = 0;
        let ghost before = bytes@;
        while j < blocks.len()
            invariant
                i < width <= DATA_CODEWORDS,
                j <= blocks@.len() <= 1,
                before.len() <= i * blocks@.len(),
                bytes@ == before + column(views(blocks@), i as int, j as nat),
                bytes@.len() <= before.len() + j,
            decreases blocks@.len() - j,
        {
            if i < blocks[j].len() {
                bytes.push(blocks[j][i]);
            }
            j = j + 1;
            assert(bytes@ =~= before + column(views(blocks@), i as int, j as nat));
        }
        i = i + 1;
        proof {
            assert(bytes@.len() <= i * blocks@.len()) by (nonlinear_arith)
                requires
                    bytes@.len() <= before.len() + blocks@.len(),
                    before.len() <= (i - 1) * blocks@.len(),
            ;
        }
    }
    bytes
}

/// Add the error correction codewords to the data bits: the data codewords
/// interleaved across blocks, then the error correction codewords interleaved
/// the same way, then the remainder bits of the version.
pub fn add(data: BitStream, v: Version) -> (r: BitStream)
    requires
        data@.len() == DATA_BITS,
        v.0 == SUPPORTED_VERSION,
    ensures
        r@.len() == DATA_BITS + 8 * EC_CODEWORDS * 1 + remainder_seq()[v.0 - 1],
        exists|d: Seq<u8>| #[trigger] bytes_to_bits(d) == data@,
        forall|d: Seq<u8>|
            #[trigger] bytes_to_bits(d) == data@ ==> r@ == bytes_to_bits(d + ec_codewords(d))
                + zeros(remainder_seq()[v.0 - 1] as nat),
{
    let layout = info::group_block_count();
    let data_bytes = data.to_bytes();
    proof {
        assert(layout@.drop_last() =~= Seq::<usize>::empty());
        assert(sum_counts(layout@.drop_last()) == 0);
        assert(sum_counts(layout@) == DATA_CODEWORDS);
    }
    let blocks = group_into_blocks(&data_bytes, &layout);
    proof {
        assert(layout@.subrange(0, 0) =~= Seq::<usize>::empty());
        assert(blocks@[0]@ =~= data_bytes@);
    }
    // First interleave the data codewords of all blocks.
    let mut layout_max: usize = 0;
    let mut q: usize = 0;
    while q < layout.len()
        invariant
            layout@ == seq![DATA_CODEWORDS],
            q <= 1,
            q == 0 ==> layout_max == 0,
            q == 1 ==> layout_max == DATA_CODEWORDS,
        decreases layout@.len() - q,
    {
        if layout[q] > layout_max {
            layout_max = layout[q];
        }
        q = q + 1;
    }
    let mut bytes = interleave_blocks(&blocks, layout_max);
    proof {
        assert(views(blocks@) =~= seq![data_bytes@]);
        lemma_interleave_single(data_bytes@, DATA_CODEWORDS as nat);
        assert(data_bytes@.subrange(0, DATA_CODEWORDS as int) =~= data_bytes@);
    }
    // Then interleave the error correction codewords of all blocks.
    let ec_count = info::block_ec_count();
    let mut ec_blocks: Vec<Vec<u8>> = Vec::new();
    let mut b: usize = 0;
    while b < blocks.len()
        invariant
            blocks@.len() == 1,
            blocks@[0]@ == data_bytes@,
            data_bytes@.len() == DATA_CODEWORDS,
            b <= 1,
            ec_blocks@.len() == b,
            b == 1 ==> ec_blocks@[0]@ == ec_codewords(data_bytes@),
            b == 1 ==> ec_blocks@[0]@.len() == EC_CODEWORDS,
        decreases blocks@.len() - b,
    {
        let ec = generate_ec_codewords(blocks[b].as_slice());
        ec_blocks.push(ec);
        b = b + 1;
    }
    assert(forall|j: int|
        0 <= j < ec_blocks@.len() ==> (#[trigger] ec_blocks@[j])@.len() <= DATA_CODEWORDS);
    let ec_bytes = interleave_blocks(&ec_blocks, ec_count);
    proof {
        assert(views(ec_blocks@) =~= seq![ec_codewords(data_bytes@)]);
        lemma_interleave_single(ec_codewords(data_bytes@), EC_CODEWORDS as nat);
        assert(ec_codewords(data_bytes@).subrange(0, EC_CODEWORDS as int) =~= ec_codewords(
            data_bytes@,
        ));
    }
    let mut e: usize = 0;
    let ghost dpart = bytes@;
    while e < ec_bytes.len()
        invariant
            dpart.len() == DATA_CODEWORDS,
            ec_bytes@.len() == EC_CODEWORDS,
            e <= ec_bytes@.len(),
            bytes@ == dpart + ec_bytes@.subrange(0, e as int),
        decreases ec_bytes@.len() - e,
    {
        bytes.push(ec_bytes[e]);
        e = e + 1;
        assert(bytes@ =~= dpart + ec_bytes@.subrange(0, e as int));
    }
    proof {
        assert(ec_bytes@.subrange(0, e as int) =~= ec_bytes@);
    }
    let ghost all = bytes@;
    let mut res = BitStream::from_bytes(bytes);
    proof {
        lemma_bytes_to_bits_len(all);
    }
    // Add the remainder bits.
    let remainder = remainder_bits(v.index());
    let mut t: usize = 0;
    while t < remainder
        invariant
            remainder == 7,
            t <= remainder,
            all.len() == DATA_CODEWORDS + EC_CODEWORDS,
            bytes_to_bits(all).len() == 8 * (DATA_CODEWORDS + EC_CODEWORDS),
            res@ == bytes_to_bits(all) + zeros(t as nat),
        decreases remainder - t,
    {
        res.push(false);
        t = t + 1;
        assert(res@ =~= bytes_to_bits(all) + zeros(t as nat));
    }
    proof {
        assert forall|d: Seq<u8>| #[trigger] bytes_to_bits(d) == data@ implies res@ == bytes_to_bits(
            d + ec_codewords(d),
        ) + zeros(remainder_seq()[v.0 - 1] as nat) by {
            lemma_bytes_to_bits_injective(d, data_bytes@);
        }
    }
    res
}

} // verus!
