//! The WAV merge: a tree of decoded WAV files, mirroring the temporary
//! directory layout the chunker addresses, is flattened bottom-up into one
//! sequence of samples and encoded as a single mono 44.1 kHz 16-bit PCM
//! file.
//!
//! A directory is merged after each of its subdirectories has been merged
//! into a single file: in the tree, every numbered entry of a directory is
//! therefore either an original leaf file or a whole subtree standing for
//! the file its subdirectory flattens to, and the entries are consumed in
//! numeric order.

use vstd::prelude::*;

verus! {

broadcast use {vstd::std_specs::vec::axiom_vec_decreases_to_view, vstd::seq::axiom_seq_index_decreases};

/// Channel count of the merged output file.
pub const OUTPUT_CHANNELS: u16 = 1;

/// Sample rate of the merged output file, in hertz.
pub const OUTPUT_SAMPLE_RATE: u32 = 44100;

/// Bits per sample of the merged output file.
pub const OUTPUT_BITS_PER_SAMPLE: u16 = 16;

/// The most samples one output file can hold: the WAV format records the
/// data size and the file size in 32-bit fields, so two bytes per sample
/// plus the header must stay below 4 GiB.
pub const MAX_OUTPUT_SAMPLES: usize = 0x7fff_f000;

/// The temporary output tree: a leaf holds the samples of one synthesized
/// WAV file; a directory holds its numbered entries in numeric order.
pub enum WavTree {
    Leaf(Vec<i16>),
    Dir(Vec<WavTree>),
}

/// All samples of the tree, in merge order: a leaf contributes its own
/// samples, a directory the samples of its entries, in numeric order.
pub open spec fn tree_samples(t: WavTree) -> Seq<i16>
    decreases t,
{
    match t {
        WavTree::Leaf(samples) => samples@,
        WavTree::Dir(children) => children_samples(children@, 0),
    }
}

/// The samples of the directory entries from index `i` on.
pub open spec fn children_samples(cs: Seq<WavTree>, i: int) -> Seq<i16>
    decreases cs, cs.len() - i,
{
    if i < 0 || i >= cs.len() {
        Seq::empty()
    } else {
        tree_samples(cs[i]) + children_samples(cs, i + 1)
    }
}

/// What went wrong while merging: a leaf's bytes were not a readable WAV
/// file.
#[derive(Debug, Clone, Copy, PartialEq, Eq, Structural)]
pub enum WavError {
    DecodeFailed,
}

/// Whether a WAV file parses: `hound`'s reader accepts or rejects a byte
/// string as a function of the bytes alone.
pub uninterp spec fn wav_parse_ok(bytes: Seq<u8>) -> bool;

/// The samples a WAV file holds, as a function of its bytes; what
/// `hound`'s reader returns on the files this library consumes.
pub uninterp spec fn wav_samples_of(bytes: Seq<u8>) -> Seq<i16>;

/// The bytes of the WAV file holding the given samples in this library's
/// fixed output format (mono, 44.1 kHz, 16-bit integer PCM); what
/// `hound`'s writer produces.
pub uninterp spec fn wav_bytes_of(samples: Seq<i16>) -> Seq<u8>;

/// Relies on `hound::WavReader`: parsing a WAV file from memory succeeds
/// or fails as a function of the bytes alone, and on success yields its
/// 16-bit samples, again a function of the bytes alone.
#[verifier::external_body]
fn decode_wav(bytes: &Vec<u8>) -> (r: Option<Vec<i16>>)
    ensures
        r is Some <==> wav_parse_ok(bytes@),
        r matches Some(samples) ==> samples@ == wav_samples_of(bytes@),
{
    let mut reader = match hound::WavReader::new(std::io::Cursor::new(bytes.as_slice())) {
        Ok(r) => r,
        Err(_) => return None,
    };
    reader.samples::<i16>().collect::<Result<Vec<i16>, _>>().ok()
}

/// Relies on `hound::WavWriter`: for the fixed mono 44.1 kHz 16-bit
/// integer format, writing into an in-memory buffer cannot fail — the
/// depth is supported, buffer writes are infallible, an `i16` always fits
/// 16 bits, mono never leaves a sample unfinished, and the bound on the
/// sample count keeps the 32-bit size fields from overflowing — and the
/// bytes produced depend on the samples alone.
#[verifier::external_body]
fn encode_wav(samples: &Vec<i16>) -> (r: Vec<u8>)
    requires
        samples@.len() <= MAX_OUTPUT_SAMPLES as int,
    ensures
        r@ == wav_bytes_of(samples@),
{
    let format = hound::SampleFormat::Int;
    let spec = hound::WavSpec {
        channels: 1,
        sample_rate: 44100,
        bits_per_sample: 16,
        sample_format: format,
    };
    let mut cursor = std::io::Cursor::new(Vec::new());
    let mut writer = hound::WavWriter::new(&mut cursor, spec).expect("header write cannot fail");
    for s in samples.iter() {
        writer.write_sample(*s).expect("sample write cannot fail");
    }
    writer.finalize().expect("finalize cannot fail");
    cursor.into_inner()
}

/// Decodes one synthesized WAV file read from memory into the samples of a
/// leaf of the merge tree: it succeeds exactly on the byte strings that
/// parse as WAV files.
pub fn decode_leaf(bytes: &Vec<u8>) -> (r: Result<Vec<i16>, WavError>)
    ensures
        r is Ok <==> wav_parse_ok(bytes@),
        r matches Ok(samples) ==> samples@ == wav_samples_of(bytes@),
        r is Err ==> r matches Err(WavError::DecodeFailed),
{
    match decode_wav(bytes) {
        Some(samples) => Ok(samples),
        None => Err(WavError::DecodeFailed),
    }
}

/// All samples of the tree, in merge order.
pub fn merge_tree(t: &WavTree) -> (out: Vec<i16>)
    ensures
        out@ == tree_samples(*t),
    decreases *t,
{
    match t {
        WavTree::Leaf(samples) => {
            let mut out: Vec<i16> = Vec::new();
            let mut i: usize = 0;
            while i < samples.len()
                invariant
                    i <= samples@.len(),
                    out@ == samples@.take(i as int),
                decreases samples@.len() - i,
            {
                out.push(samples[i]);
                i += 1;
                proof {
                    assert(out@ =~= samples@.take(i as int));
                }
            }
            proof {
                assert(samples@.take(samples@.len() as int) =~= samples@);
            }
            out
        },
        WavTree::Dir(children) => {
            let mut out: Vec<i16> = Vec::new();
            let mut i: usize = 0;
            proof {
                assert(out@ + children_samples(children@, 0) =~= children_samples(children@, 0));
            }
            while i < children.len()
                invariant
                    *t == WavTree::Dir(*children),
                    i <= children@.len(),
                    out@ + children_samples(children@, i as int) == children_samples(
                        children@,
                        0,
                    ),
                decreases children@.len() - i,
            {
                proof {
                    assert(t->Dir_0 == *children);
                    assert(decreases_to!(*t => t->Dir_0));
                    assert(decreases_to!(*children => children@));
                    assert(decreases_to!(children@ => children@[i as int]));
                }
                let mut part = merge_tree(&children[i]);
                let ghost prior = out@;
                out.append(&mut part);
                proof {
                    assert(out@ + children_samples(children@, i as int + 1) =~= prior
                        + children_samples(children@, i as int));
                }
                i += 1;
            }
            proof {
                assert(children_samples(children@, i as int) =~= Seq::<i16>::empty());
                assert(out@ + Seq::<i16>::empty() =~= out@);
            }
            out
        },
    }
}

/// Merges the whole tree bottom-up and encodes the result as one mono
/// 44.1 kHz 16-bit PCM WAV file in memory. It always produces the file —
/// an empty directory gives a valid file with no samples — as long as the
/// merged sample count fits the format's 32-bit size fields.
pub fn merge_to_wav(t: &WavTree) -> (bytes: Vec<u8>)
    requires
        tree_samples(*t).len() <= MAX_OUTPUT_SAMPLES as int,
    ensures
        bytes@ == wav_bytes_of(tree_samples(*t)),
{
    let samples = merge_tree(t);
    encode_wav(&samples)
}

/// Merging a directory of three leaf files concatenates their samples in
/// file order, and the output sample count is the sum of the three counts.
pub proof fn lemma_merge_three_files(t: WavTree)
    requires
        t is Dir,
        t->Dir_0@.len() == 3,
        t->Dir_0@[0] is Leaf,
        t->Dir_0@[1] is Leaf,
        t->Dir_0@[2] is Leaf,
    ensures
        tree_samples(t) == t->Dir_0@[0]->Leaf_0@ + t->Dir_0@[1]->Leaf_0@ + t->Dir_0@[2]->Leaf_0@,
        tree_samples(t).len() == t->Dir_0@[0]->Leaf_0@.len() + t->Dir_0@[1]->Leaf_0@.len()
            + t->Dir_0@[2]->Leaf_0@.len(),
{
    let cs = t->Dir_0@;
    assert(children_samples(cs, 3) =~= Seq::<i16>::empty());
    assert(children_samples(cs, 2) =~= tree_samples(cs[2]) + children_samples(cs, 3));
    assert(children_samples(cs, 1) =~= tree_samples(cs[1]) + children_samples(cs, 2));
    assert(children_samples(cs, 0) =~= tree_samples(cs[0]) + children_samples(cs, 1));
    assert(children_samples(cs, 0) =~= tree_samples(cs[0]) + tree_samples(cs[1]) + tree_samples(
        cs[2],
    ));
}

/// The sample counts of the entries of a directory from index `i` on,
/// added up.
pub open spec fn children_sample_count(cs: Seq<WavTree>, i: int) -> int
    decreases cs.len() - i,
{
    if i < 0 || i >= cs.len() {
        0
    } else {
        tree_samples(cs[i]).len() + children_sample_count(cs, i + 1)
    }
}

/// Merging a directory of any size loses no samples and invents none: the
/// output sample count is the sum of the entries' sample counts.
pub proof fn lemma_dir_sample_count(cs: Seq<WavTree>, i: int)
    requires
        0 <= i <= cs.len(),
    ensures
        children_samples(cs, i).len() == children_sample_count(cs, i),
    decreases cs.len() - i,
{
    if i < cs.len() {
        lemma_dir_sample_count(cs, i + 1);
    }
}

/// The merge is deterministic: the merged bytes are a function of the tree
/// alone, so repeated merges of identical trees are byte-identical.
pub proof fn lemma_merge_deterministic(t1: WavTree, t2: WavTree)
    requires
        t1 == t2,
    ensures
        wav_bytes_of(tree_samples(t1)) == wav_bytes_of(tree_samples(t2)),
{
}

} // verus!
