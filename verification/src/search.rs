//! The scanner: run the matcher over one chunk of the image, try a carve
//! at every magic match, and name what was carved.
//!
//! A chunk bounds only the search: a carve attempt reads the image from
//! the absolute match offset to the image's end, so a file whose magic
//! starts inside a chunk may legitimately cross its border.  What a scan
//! returns is a function of the image, the chunk bounds, the corpus and
//! the limit alone, and of nothing else: workers scanning different
//! chunks are independent of one another, and a second run over the same
//! input returns the same discoveries.

use vstd::prelude::*;

use crate::audit::AuditData;
use crate::carvers::fourcc_carver::{fourcc_carver, spec_fourcc_carve, spec_fourcc_walk, FourCCCarver};
use crate::carvers::size_carver::{carve_using_size, spec_size_carve};
use crate::carvers::CarvingResult;
use crate::filetypes::bmp::BMP;
use crate::filetypes::corpus::{spec_ext_listed, spec_file_name, CarvingFunc, CarvingMethod, Corpus, FileType};
use crate::filetypes::jpeg::JpegSegment;
use crate::filetypes::png::{PNGChunk, PNGHeader};
use crate::filetypes::wav::WAV;
use crate::deserializer::{Deserializer, SpecParse};
use crate::patterns::{ac_match_seq, ac_patterns, find_matches, match_wf, MatchPos};
use vstd::slice::slice_subrange;

verus! {

/// One carve found by the scanner, before naming: which corpus entry
/// matched, at which absolute offset the carve starts, and its length.
#[derive(Clone, Copy, Debug, PartialEq, Eq, Structural)]
pub struct Discovery {
    /// The index of the file type in the corpus.
    pub file_type: usize,
    /// The carve's absolute start offset in the image.
    pub start: usize,
    /// The carved payload's length.
    pub length: usize,
}

/// The payload length that `ft`'s strategy carves from `bytes`; `0` when
/// nothing is carved.
pub open spec fn spec_carve(bytes: Seq<u8>, ft: FileType) -> int {
    match ft.carving_func {
        CarvingFunc::SizeBmp => spec_size_carve::<BMP>(bytes, ft.min_size as int),
        CarvingFunc::SizeWav => spec_size_carve::<WAV>(bytes, ft.min_size as int),
        CarvingFunc::FourccPng => spec_fourcc_carve::<PNGHeader, PNGChunk>(
            bytes,
            ft.min_size as int,
            ft.max_size as int,
            ft.carving_method,
        ),
        CarvingFunc::FourccJpeg => spec_fourcc_carve::<JpegSegment, JpegSegment>(
            bytes,
            ft.min_size as int,
            ft.max_size as int,
            ft.carving_method,
        ),
    }
}

/// Dispatch to the carving strategy the descriptor names.
pub fn carve(mmap: &[u8], ft: &FileType) -> (r: CarvingResult)
    ensures
        r.length == spec_carve(mmap@, *ft),
        r.offset == r.length,
        r.file_name is None,
        r.length <= mmap@.len(),
{
    let r = match ft.carving_func {
        CarvingFunc::SizeBmp => carve_using_size::<BMP>(mmap, ft),
        CarvingFunc::SizeWav => carve_using_size::<WAV>(mmap, ft),
        CarvingFunc::FourccPng => fourcc_carver::<PNGHeader, PNGChunk>(mmap, ft),
        CarvingFunc::FourccJpeg => fourcc_carver::<JpegSegment, JpegSegment>(mmap, ft),
    };
    r
}

/// The limit as the specification counts it.
pub open spec fn spec_limit(limit: Option<usize>) -> Option<int> {
    match limit {
        Some(l) => Some(l as int),
        None => None,
    }
}

/// How many carves are still allowed after `found` of them.
pub open spec fn spec_left(limit: Option<int>, found: int) -> Option<int> {
    match limit {
        Some(l) => Some(l - found),
        None => None,
    }
}

/// The discoveries that processing the matches from index `i` on yields,
/// with `left` carves still allowed (`None` for unlimited).  A match
/// whose pattern index or offset does not fit the corpus and the image is
/// passed over, as the matcher never reports one.
pub open spec fn spec_scan_from(
    image: Seq<u8>,
    base: int,
    ms: Seq<MatchPos>,
    i: int,
    types: Seq<FileType>,
    left: Option<int>,
) -> Seq<Discovery>
    decreases ms.len() - i,
{
    if i < 0 || i >= ms.len() || (left matches Some(l) && l <= 0) {
        Seq::empty()
    } else {
        let m = ms[i];
        if m.pattern < types.len() && 0 <= base + m.start <= image.len() {
            let n = spec_carve(
                image.subrange(base + m.start, image.len() as int),
                types[m.pattern as int],
            );
            if n > 0 {
                let d = Discovery {
                    file_type: m.pattern,
                    start: (base + m.start) as usize,
                    length: n as usize,
                };
                seq![d] + spec_scan_from(image, base, ms, i + 1, types, spec_left(left, 1))
            } else {
                spec_scan_from(image, base, ms, i + 1, types, left)
            }
        } else {
            spec_scan_from(image, base, ms, i + 1, types, left)
        }
    }
}

/// The discoveries that scanning the chunk `[start, end)` of the image
/// yields: a carve attempt at every match the pattern matcher reports
/// there, stopped once `limit` files are found.
pub open spec fn spec_scan(
    image: Seq<u8>,
    start: int,
    end: int,
    types: Seq<FileType>,
    limit: Option<int>,
) -> Seq<Discovery> {
    spec_scan_from(
        image,
        start,
        ac_match_seq(types.map_values(|ft: FileType| ft.magic@), image.subrange(start, end)),
        0,
        types,
        limit,
    )
}

/// A discovery fits the image and the corpus it came from.
pub open spec fn spec_discovery_ok(d: Discovery, image: Seq<u8>, types: Seq<FileType>) -> bool {
    &&& d.file_type < types.len()
    &&& d.start + d.length <= image.len()
    &&& 1 <= d.length
}

/// The context one worker scans in: the mapped image and the bounds of
/// the chunk whose matches it owns.
#[derive(Debug)]
pub struct Context<'a> {
    /// The mapped image to search.
    pub mmap: &'a [u8],
    /// Start of the chunk to search, inclusive.
    pub start: usize,
    /// End of the chunk to search, exclusive.
    pub end: usize,
}

impl<'a> Context<'a> {
    /// The chunk lies within the image.
    pub open spec fn wf(self) -> bool {
        self.start <= self.end <= self.mmap@.len()
    }

    /// Search the chunk for magic matches and attempt a carve at each
    /// one.  The result is pinned by [`spec_scan`]: a function of the
    /// image, the bounds, the corpus and the limit alone.
    #[verifier::rlimit(100)]
    pub fn scan(&self, corpus: &Corpus, ac: &aho_corasick::AhoCorasick, limit: Option<usize>) -> (r:
        Vec<Discovery>)
        requires
            self.wf(),
            corpus.spec_wf(),
            ac_patterns(*ac) == corpus.spec_magics(),
        ensures
            r@ == spec_scan(
                self.mmap@,
                self.start as int,
                self.end as int,
                corpus.0@,
                spec_limit(limit),
            ),
            forall|j: int|
                0 <= j < r@.len() ==> spec_discovery_ok(#[trigger] r@[j], self.mmap@, corpus.0@),
            r@.len() <= self.end - self.start,
    {
        let ghost image = self.mmap@;
        let ghost base = self.start as int;
        let ghost types = corpus.0@;
        let ghost pats = corpus.spec_magics();
        let ghost chunkv = image.subrange(base, self.end as int);
        let ghost limit0 = spec_limit(limit);

        // we search patterns inside this chunk only
        let chunk = slice_subrange(self.mmap, self.start, self.end);
        let ms = find_matches(ac, chunk);
        let ghost msv = ms@;

        proof {
            lemma_ordered_matches_len(pats, chunkv, msv);
            assert(types.map_values(|ft: FileType| ft.magic@) == pats);
        }

        let mut out: Vec<Discovery> = Vec::new();
        let mut i: usize = 0;

        loop
            invariant
                self.wf(),
                corpus.0@ == types,
                corpus.spec_wf(),
                image == self.mmap@,
                base == self.start as int,
                chunkv == image.subrange(base, self.end as int),
                limit0 == spec_limit(limit),
                ms@ == msv,
                msv == ac_match_seq(pats, chunkv),
                pats == types.map_values(|ft: FileType| ft.magic@),
                forall|j: int| 0 <= j < msv.len() ==> match_wf(pats, chunkv, #[trigger] msv[j]),
                i <= msv.len(),
                out@.len() <= i,
                limit0 matches Some(l) ==> out@.len() <= l,
                out@ + spec_scan_from(
                    image,
                    base,
                    msv,
                    i as int,
                    types,
                    spec_left(limit0, out@.len() as int),
                ) == spec_scan_from(image, base, msv, 0, types, limit0),
                forall|j: int|
                    0 <= j < out@.len() ==> spec_discovery_ok(#[trigger] out@[j], image, types),
            ensures
                out@ == spec_scan_from(image, base, msv, 0, types, limit0),
            decreases msv.len() - i,
        {
            if i >= ms.len() {
                proof {
                    assert(spec_scan_from(
                        image,
                        base,
                        msv,
                        i as int,
                        types,
                        spec_left(limit0, out@.len() as int),
                    ) =~= Seq::<Discovery>::empty());
                    assert(out@ + Seq::<Discovery>::empty() =~= out@);
                }
                break;
            }
            // stop carving if we reached the limit
            if let Some(l) = limit {
                if out.len() >= l {
                    proof {
                        assert(spec_scan_from(
                            image,
                            base,
                            msv,
                            i as int,
                            types,
                            spec_left(limit0, out@.len() as int),
                        ) =~= Seq::<Discovery>::empty());
                        assert(out@ + Seq::<Discovery>::empty() =~= out@);
                    }
                    break;
                }
            }

            let m = ms[i];
            proof {
                assert(0 <= i < msv.len());
                assert(m == msv[i as int]);
                assert(match_wf(pats, chunkv, msv[i as int]));
                assert(m.pattern < pats.len());
                assert(pats.len() == types.len());
                assert(pats[m.pattern as int] == types[m.pattern as int].magic@);
                assert(m.start + types[m.pattern as int].magic@.len() <= chunkv.len());
            }

            // the pattern index returned by the matcher is the corpus index
            let ft: &FileType = &corpus.0[m.pattern];

            // the absolute offset of the match in the whole image
            let absolute_offset = self.start + m.start;

            // try to carve from the absolute offset to the image's end
            let tail = slice_subrange(self.mmap, absolute_offset, self.mmap.len());
            let result = carve(tail, ft);

            let ghost left_before = spec_left(limit0, out@.len() as int);

            // offset returned is 0: we did not find or carve any artefact
            if result.offset == 0 {
                proof {
                    assert(spec_scan_from(image, base, msv, i as int, types, left_before)
                        == spec_scan_from(image, base, msv, i + 1, types, left_before));
                }
            } else {
                let d = Discovery { file_type: m.pattern, start: absolute_offset, length: result.length };
                proof {
                    let n = spec_carve(
                        image.subrange(base + m.start as int, image.len() as int),
                        types[m.pattern as int],
                    );
                    assert(n == result.length);
                    assert(spec_scan_from(image, base, msv, i as int, types, left_before)
                        == seq![d] + spec_scan_from(
                        image,
                        base,
                        msv,
                        i + 1,
                        types,
                        spec_left(left_before, 1),
                    ));
                    assert((out@ + seq![d]) + spec_scan_from(
                        image,
                        base,
                        msv,
                        i + 1,
                        types,
                        spec_left(left_before, 1),
                    ) =~= out@ + (seq![d] + spec_scan_from(
                        image,
                        base,
                        msv,
                        i + 1,
                        types,
                        spec_left(left_before, 1),
                    )));
                    assert(spec_left(left_before, 1) == spec_left(limit0, out@.len() as int + 1));
                }
                out.push(d);
            }
            i = i + 1;
        }
        proof {
            assert(out@ == spec_scan(
                self.mmap@,
                self.start as int,
                self.end as int,
                corpus.0@,
                spec_limit(limit),
            ));
        }
        out
    }

    /// Try to carve files using the context: scan the chunk for magic
    /// matches, attempt a carve at each, and name every artefact through
    /// the corpus counters.  The records are pinned by [`spec_scan`] over
    /// this chunk alone and by [`spec_named_ok`]: what a worker produces
    /// does not depend on what any other chunk holds.
    pub fn search(
        &self,
        corpus: &mut Corpus,
        ac: &aho_corasick::AhoCorasick,
        limit: Option<usize>,
    ) -> (r: Vec<AuditData>)
        requires
            self.wf(),
            old(corpus).spec_wf(),
            ac_patterns(*ac) == old(corpus).spec_magics(),
            forall|t: int|
                0 <= t < old(corpus).0@.len() ==> (#[trigger] old(corpus).0@[t]).index + (self.end
                    - self.start) <= usize::MAX,
        ensures
            ({
                let ds = spec_scan(
                    self.mmap@,
                    self.start as int,
                    self.end as int,
                    old(corpus).0@,
                    spec_limit(limit),
                );
                &&& r@.len() == ds.len()
                &&& forall|i: int|
                    0 <= i < r@.len() ==> spec_named_ok(#[trigger] r@[i], ds, i, old(corpus).0@)
                &&& final(corpus).0@.len() == old(corpus).0@.len()
                &&& forall|t: int|
                    0 <= t < old(corpus).0@.len() ==> spec_counted(
                        old(corpus).0@[t],
                        #[trigger] final(corpus).0@[t],
                        spec_count_type(ds, ds.len() as int, t),
                    )
            }),
            final(corpus).spec_wf(),
            final(corpus).spec_magics() == old(corpus).spec_magics(),
    {
        let ds = self.scan(corpus, ac, limit);
        let image_len = self.mmap.len();
        proof {
            assert forall|j: int|
                0 <= j < ds@.len() implies (#[trigger] ds@[j]).start + ds@[j].length
                <= usize::MAX by {
                assert(spec_discovery_ok(ds@[j], self.mmap@, old(corpus).0@));
                assert(self.mmap@.len() == image_len);
            }
        }
        let r = name_discoveries(corpus, &ds);
        proof {
            assert(final(corpus).spec_magics() =~= old(corpus).spec_magics());
        }
        r
    }
}

/// How many of the first `i` discoveries are of type `t`: the number of
/// files of that type the output manager has already named.
pub open spec fn spec_count_type(ds: Seq<Discovery>, i: int, t: int) -> int
    decreases i,
{
    if i <= 0 {
        0
    } else {
        spec_count_type(ds, i - 1, t) + if ds[i - 1].file_type == t {
            1int
        } else {
            0int
        }
    }
}

/// At most `i` of the first `i` discoveries are of any one type.
pub proof fn lemma_count_le(ds: Seq<Discovery>, i: int, t: int)
    ensures
        0 <= spec_count_type(ds, i, t) <= if i >= 0 {
            i
        } else {
            0int
        },
    decreases i,
{
    if i > 0 {
        lemma_count_le(ds, i - 1, t);
    }
}

/// The audit record `a` names discovery `i` of `ds` as the output manager
/// does, with the counters `types` held before the first of them was
/// named: its number is that type's counter plus how many earlier
/// discoveries share the type.
pub open spec fn spec_named_ok(
    a: AuditData,
    ds: Seq<Discovery>,
    i: int,
    types: Seq<FileType>,
) -> bool {
    let d = ds[i];
    let ft = types[d.file_type as int];
    &&& a.artefact@ == spec_file_name(
        ft.category@,
        ft.ext@,
        ft.index + spec_count_type(ds, i, d.file_type as int),
    )
    &&& a.offset_start == d.start
    &&& a.offset_end == d.start + d.length
    &&& a.length == d.length
}

/// `f` is `o` with its counter advanced by `n` and nothing else changed.
pub open spec fn spec_counted(o: FileType, f: FileType, n: int) -> bool {
    &&& f.magic == o.magic
    &&& f.ext == o.ext
    &&& f.carving_func == o.carving_func
    &&& f.category == o.category
    &&& f.min_size == o.min_size
    &&& f.max_size == o.max_size
    &&& f.carving_method == o.carving_method
    &&& f.index == o.index + n
}

/// Name every discovery in order: each gets its type's next file name,
/// and each type's counter ends advanced by exactly the number of
/// discoveries of that type.
pub fn name_discoveries(corpus: &mut Corpus, ds: &Vec<Discovery>) -> (r: Vec<AuditData>)
    requires
        forall|j: int|
            0 <= j < ds@.len() ==> (#[trigger] ds@[j]).file_type < old(corpus).0@.len(),
        forall|j: int|
            0 <= j < ds@.len() ==> (#[trigger] ds@[j]).start + ds@[j].length <= usize::MAX,
        forall|t: int|
            0 <= t < old(corpus).0@.len() ==> (#[trigger] old(corpus).0@[t]).index + ds@.len()
                <= usize::MAX,
    ensures
        r@.len() == ds@.len(),
        forall|i: int| 0 <= i < r@.len() ==> spec_named_ok(#[trigger] r@[i], ds@, i, old(corpus).0@),
        final(corpus).0@.len() == old(corpus).0@.len(),
        forall|t: int|
            0 <= t < old(corpus).0@.len() ==> spec_counted(
                old(corpus).0@[t],
                #[trigger] final(corpus).0@[t],
                spec_count_type(ds@, ds@.len() as int, t),
            ),
{
    let mut out: Vec<AuditData> = Vec::new();
    let mut i: usize = 0;
    while i < ds.len()
        invariant
            i <= ds@.len(),
            out@.len() == i,
            forall|j: int|
                0 <= j < ds@.len() ==> (#[trigger] ds@[j]).file_type < old(corpus).0@.len(),
            forall|j: int|
                0 <= j < ds@.len() ==> (#[trigger] ds@[j]).start + ds@[j].length <= usize::MAX,
            forall|t: int|
                0 <= t < old(corpus).0@.len() ==> (#[trigger] old(corpus).0@[t]).index + ds@.len()
                    <= usize::MAX,
            corpus.0@.len() == old(corpus).0@.len(),
            forall|t: int|
                0 <= t < old(corpus).0@.len() ==> spec_counted(
                    old(corpus).0@[t],
                    #[trigger] corpus.0@[t],
                    spec_count_type(ds@, i as int, t),
                ),
            forall|j: int| 0 <= j < i ==> spec_named_ok(#[trigger] out@[j], ds@, j, old(corpus).0@),
        decreases ds@.len() - i,
    {
        let d = ds[i];
        proof {
            lemma_count_le(ds@, i as int, d.file_type as int);
        }
        let ghost before = corpus.0@;
        let mut ft = corpus.0.remove(d.file_type);
        let name = ft.next_file_name();
        corpus.0.insert(d.file_type, ft);
        proof {
            assert(corpus.0@ =~= before.update(
                d.file_type as int,
                corpus.0@[d.file_type as int],
            ));
        }
        let ad = AuditData {
            artefact: name,
            offset_start: d.start as u64,
            offset_end: (d.start + d.length) as u64,
            length: d.length as u64,
        };
        out.push(ad);
        i = i + 1;
        proof {
            assert(forall|t: int|
                spec_count_type(ds@, i as int, t) == spec_count_type(ds@, i - 1, t) + if ds@[i
                    - 1].file_type == t {
                    1int
                } else {
                    0int
                });
            assert(spec_named_ok(out@[i - 1], ds@, i - 1, old(corpus).0@));
        }
    }
    out
}

/// The chunk that worker `k` of `n` owns: `[k·(len/n), (k+1)·(len/n))`,
/// with the last worker's upper bound stretched to the image's end.
pub open spec fn spec_chunk_bounds(len: int, n: int, k: int) -> (int, int) {
    (k * (len / n), if k == n - 1 {
        len
    } else {
        (k + 1) * (len / n)
    })
}

/// The discoveries of workers `k` to `n`, each scanning its own chunk in
/// isolation, in worker order.
pub open spec fn spec_scan_chunks(
    image: Seq<u8>,
    types: Seq<FileType>,
    n: int,
    k: int,
    limit: Option<int>,
) -> Seq<Discovery>
    decreases n - k,
{
    if k < 0 || k >= n {
        Seq::empty()
    } else {
        let b = spec_chunk_bounds(image.len() as int, n, k);
        spec_scan(image, b.0, b.1, types, limit) + spec_scan_chunks(image, types, n, k + 1, limit)
    }
}

/// Where the first `k` chunks of the image end.
pub open spec fn spec_chunk_pos(len: int, n: int, k: int) -> int {
    if k >= n {
        len
    } else {
        k * (len / n)
    }
}

/// Split the image into `n_workers` contiguous chunks and scan each in
/// turn, then name everything found, in order.  Each chunk's discoveries
/// are exactly what scanning that chunk in isolation yields — the records
/// differ between schedules only in how file numbering interleaves — so
/// the result is pinned chunk by chunk by [`spec_scan_chunks`].
pub fn scan_image(
    mmap: &[u8],
    corpus: &mut Corpus,
    ac: &aho_corasick::AhoCorasick,
    n_workers: usize,
    limit: Option<usize>,
) -> (r: Vec<AuditData>)
    requires
        n_workers >= 1,
        old(corpus).spec_wf(),
        ac_patterns(*ac) == old(corpus).spec_magics(),
        forall|t: int|
            0 <= t < old(corpus).0@.len() ==> (#[trigger] old(corpus).0@[t]).index + mmap@.len()
                <= usize::MAX,
    ensures
        ({
            let ds = spec_scan_chunks(
                mmap@,
                old(corpus).0@,
                n_workers as int,
                0,
                spec_limit(limit),
            );
            &&& r@.len() == ds.len()
            &&& forall|i: int|
                0 <= i < r@.len() ==> spec_named_ok(#[trigger] r@[i], ds, i, old(corpus).0@)
            &&& final(corpus).0@.len() == old(corpus).0@.len()
            &&& forall|t: int|
                0 <= t < old(corpus).0@.len() ==> spec_counted(
                    old(corpus).0@[t],
                    #[trigger] final(corpus).0@[t],
                    spec_count_type(ds, ds.len() as int, t),
                )
        }),
        final(corpus).spec_wf(),
        final(corpus).spec_magics() == old(corpus).spec_magics(),
{
    let ghost image = mmap@;
    let ghost types = old(corpus).0@;
    let ghost limit0 = spec_limit(limit);
    let ghost n = n_workers as int;

    let image_len = mmap.len();

    // the image is divided into n_workers chunks, one per worker
    let chunk_size = image_len / n_workers;
    proof {
        vstd::arithmetic::div_mod::lemma_fundamental_div_mod(image.len() as int, n);
    }

    let mut all: Vec<Discovery> = Vec::new();
    let mut k: usize = 0;
    while k < n_workers
        invariant
            n_workers >= 1,
            n == n_workers as int,
            image == mmap@,
            image_len == image.len(),
            limit0 == spec_limit(limit),
            chunk_size == image.len() as int / n,
            corpus.0@ == types,
            types == old(corpus).0@,
            corpus.spec_wf(),
            ac_patterns(*ac) == corpus.spec_magics(),
            k <= n_workers,
            all@.len() <= spec_chunk_pos(image.len() as int, n, k as int),
            all@ + spec_scan_chunks(image, types, n, k as int, limit0) == spec_scan_chunks(
                image,
                types,
                n,
                0,
                limit0,
            ),
            forall|j: int|
                0 <= j < all@.len() ==> spec_discovery_ok(#[trigger] all@[j], image, types),
        decreases n_workers - k,
    {
        proof {
            vstd::arithmetic::div_mod::lemma_fundamental_div_mod(image.len() as int, n);
            vstd::arithmetic::div_mod::lemma_mod_division_less_than_divisor(
                image.len() as int,
                n,
            );
            vstd::arithmetic::mul::lemma_mul_inequality(k as int, n, chunk_size as int);
            vstd::arithmetic::mul::lemma_mul_inequality(k as int + 1, n, chunk_size as int);
            vstd::arithmetic::mul::lemma_mul_inequality(k as int, k as int + 1, chunk_size as int);
        }
        // calculate this worker's chunk bounds
        let start = k * chunk_size;
        let end = if k == n_workers - 1 {
            image_len
        } else {
            (k + 1) * chunk_size
        };

        let ctx = Context { mmap, start, end };
        let mut ds = ctx.scan(&*corpus, ac, limit);

        proof {
            let b = spec_chunk_bounds(image.len() as int, n, k as int);
            assert(b.0 == start && b.1 == end);
            assert(spec_scan_chunks(image, types, n, k as int, limit0) == spec_scan(
                image,
                b.0,
                b.1,
                types,
                limit0,
            ) + spec_scan_chunks(image, types, n, k as int + 1, limit0));
            assert((all@ + ds@) + spec_scan_chunks(image, types, n, k as int + 1, limit0) =~= all@
                + (ds@ + spec_scan_chunks(image, types, n, k as int + 1, limit0)));
        }
        all.append(&mut ds);
        k = k + 1;
    }
    proof {
        assert(spec_scan_chunks(image, types, n, k as int, limit0) =~= Seq::<Discovery>::empty());
        assert(all@ + Seq::<Discovery>::empty() =~= all@);
        assert forall|j: int|
            0 <= j < all@.len() implies (#[trigger] all@[j]).start + all@[j].length
            <= usize::MAX by {
            assert(spec_discovery_ok(all@[j], image, types));
        }
    }
    let r = name_discoveries(corpus, &all);
    proof {
        assert(final(corpus).spec_magics() =~= old(corpus).spec_magics());
    }
    r
}

/// A later discovery of the same type counts every earlier one of it.
proof fn lemma_count_mono(ds: Seq<Discovery>, i: int, j: int, t: int)
    requires
        0 <= i < j,
    ensures
        spec_count_type(ds, j, t) >= spec_count_type(ds, i, t) + if ds[i].file_type == t {
            1int
        } else {
            0int
        },
    decreases j,
{
    if j > i + 1 {
        lemma_count_mono(ds, i, j - 1, t);
    }
}

/// Two discoveries of the same type never share a file name: each got a
/// distinct counter value, and distinct counters render to distinct
/// names within one category and extension.
pub proof fn lemma_names_unique(
    ds: Seq<Discovery>,
    types: Seq<FileType>,
    i: int,
    j: int,
    a_i: AuditData,
    a_j: AuditData,
)
    requires
        0 <= i < j < ds.len(),
        ds[i].file_type == ds[j].file_type,
        ds[i].file_type < types.len(),
        spec_named_ok(a_i, ds, i, types),
        spec_named_ok(a_j, ds, j, types),
    ensures
        a_i.artefact@ != a_j.artefact@,
{
    let t = ds[i].file_type as int;
    let ft = types[t];
    lemma_count_le(ds, i, t);
    lemma_count_le(ds, j, t);
    lemma_count_mono(ds, i, j, t);
    crate::filetypes::corpus::lemma_file_name_unique(
        ft.category@,
        ft.ext@,
        ft.index + spec_count_type(ds, i, t),
        ft.index + spec_count_type(ds, j, t),
    );
}

/// A walk that ends found its end marker within bounds: past the walk's
/// start, within the data, and within the size cap.
proof fn lemma_walk_bounds<C: Deserializer + FourCCCarver>(
    bytes: Seq<u8>,
    pos: int,
    method: CarvingMethod,
    max_size: int,
    fuel: nat,
)
    requires
        0 <= pos <= bytes.len(),
    ensures
        match spec_fourcc_walk::<C>(bytes, pos, method, max_size, fuel) {
            Some(end) => pos < end <= bytes.len() && end <= max_size,
            None => true,
        },
    decreases fuel,
{
    if fuel > 0 {
        C::lemma_parse_advances(bytes, pos);
        match C::spec_parse(bytes, pos) {
            SpecParse::Parsed { value, next, .. } => {
                if next <= max_size && !value.spec_is_end() {
                    lemma_walk_bounds::<C>(bytes, next, method, max_size, (fuel - 1) as nat);
                }
            },
            SpecParse::Rejected { next } => {
                if method is Simple && next <= max_size {
                    lemma_walk_bounds::<C>(bytes, next, method, max_size, (fuel - 1) as nat);
                }
            },
            SpecParse::Failed => {},
        }
    }
}

/// A carve that produced anything respects its type's bounds: at least
/// `min_size`, at most the buffer, and, for the chunked strategies, at
/// most `max_size`.
pub proof fn lemma_carve_bounds(bytes: Seq<u8>, ft: FileType)
    ensures
        spec_carve(bytes, ft) != 0 ==> ft.min_size <= spec_carve(bytes, ft) <= bytes.len(),
        spec_carve(bytes, ft) != 0 && (ft.carving_func == CarvingFunc::FourccPng
            || ft.carving_func == CarvingFunc::FourccJpeg) ==> spec_carve(bytes, ft)
            <= ft.max_size,
{
    let fuel = (bytes.len() + 1) as nat;
    match ft.carving_func {
        CarvingFunc::SizeBmp => {},
        CarvingFunc::SizeWav => {},
        CarvingFunc::FourccPng => {
            match PNGHeader::spec_parse(bytes, 0) {
                SpecParse::Parsed { next, .. } => {
                    PNGHeader::lemma_parse_advances(bytes, 0);
                    lemma_walk_bounds::<PNGChunk>(
                        bytes,
                        next,
                        ft.carving_method,
                        ft.max_size as int,
                        fuel,
                    );
                },
                _ => {},
            }
        },
        CarvingFunc::FourccJpeg => {
            match JpegSegment::spec_parse(bytes, 0) {
                SpecParse::Parsed { next, .. } => {
                    JpegSegment::lemma_parse_advances(bytes, 0);
                    lemma_walk_bounds::<JpegSegment>(
                        bytes,
                        next,
                        ft.carving_method,
                        ft.max_size as int,
                        fuel,
                    );
                },
                _ => {},
            }
        },
    }
}

/// Every discovery a scan yields points at a corpus entry and respects
/// that entry's size bounds.
proof fn lemma_scan_from_records(
    image: Seq<u8>,
    base: int,
    ms: Seq<MatchPos>,
    i: int,
    types: Seq<FileType>,
    left: Option<int>,
)
    ensures
        forall|j: int|
            0 <= j < spec_scan_from(image, base, ms, i, types, left).len() ==> {
                let d = #[trigger] spec_scan_from(image, base, ms, i, types, left)[j];
                let ft = types[d.file_type as int];
                &&& d.file_type < types.len()
                &&& ft.min_size <= d.length
                &&& (ft.carving_func == CarvingFunc::FourccPng || ft.carving_func
                    == CarvingFunc::FourccJpeg) ==> d.length <= ft.max_size
            },
    decreases ms.len() - i,
{
    if i < 0 || i >= ms.len() || (left matches Some(l) && l <= 0) {
    } else {
        let m = ms[i];
        if m.pattern < types.len() && 0 <= base + m.start <= image.len() {
            let tail = image.subrange(base + m.start, image.len() as int);
            let n = spec_carve(tail, types[m.pattern as int]);
            lemma_carve_bounds(tail, types[m.pattern as int]);
            if n > 0 {
                lemma_scan_from_records(image, base, ms, i + 1, types, spec_left(left, 1));
            } else {
                lemma_scan_from_records(image, base, ms, i + 1, types, left);
            }
        } else {
            lemma_scan_from_records(image, base, ms, i + 1, types, left);
        }
    }
}

/// For every carved file, its length lies between its type's `min_size`
/// and, for the chunked strategies, its type's `max_size`; a size-carved
/// type is bounded below by `min_size` and above by the buffer alone.
pub proof fn lemma_scan_size_bounds(
    image: Seq<u8>,
    start: int,
    end: int,
    types: Seq<FileType>,
    limit: Option<int>,
)
    ensures
        forall|j: int|
            0 <= j < spec_scan(image, start, end, types, limit).len() ==> {
                let d = #[trigger] spec_scan(image, start, end, types, limit)[j];
                let ft = types[d.file_type as int];
                &&& d.file_type < types.len()
                &&& ft.min_size <= d.length
                &&& (ft.carving_func == CarvingFunc::FourccPng || ft.carving_func
                    == CarvingFunc::FourccJpeg) ==> d.length <= ft.max_size
            },
{
    let ms = ac_match_seq(
        types.map_values(|ft: FileType| ft.magic@),
        image.subrange(start, end),
    );
    lemma_scan_from_records(image, start, ms, 0, types, limit);
}

/// When the corpus was restricted to an extension list, every carved
/// file's type carries an extension from that list.
pub proof fn lemma_retained_extensions(
    image: Seq<u8>,
    start: int,
    end: int,
    before: Seq<FileType>,
    exts: Seq<String>,
    limit: Option<int>,
)
    requires
        exts.len() > 0,
    ensures
        ({
            let types = before.filter(|ft: FileType| spec_ext_listed(ft, exts));
            forall|j: int|
                0 <= j < spec_scan(image, start, end, types, limit).len() ==> spec_ext_listed(
                    types[(#[trigger] spec_scan(image, start, end, types, limit)[j]).file_type as int],
                    exts,
                )
        }),
{
    let pred = |ft: FileType| spec_ext_listed(ft, exts);
    let types = before.filter(pred);
    lemma_scan_size_bounds(image, start, end, types, limit);
    let ds = spec_scan(image, start, end, types, limit);
    assert forall|j: int| 0 <= j < ds.len() implies spec_ext_listed(
        types[(#[trigger] ds[j]).file_type as int],
        exts,
    ) by {
        assert(ds[j].file_type < types.len());
        before.lemma_filter_pred(pred, ds[j].file_type as int);
    }
}

/// Scanning is a function of the image, the bounds, the corpus and the
/// limit alone: two runs over the same input yield the same discoveries,
/// whatever else changed between them.
pub proof fn lemma_scan_deterministic(
    r1: Seq<Discovery>,
    r2: Seq<Discovery>,
    image: Seq<u8>,
    start: int,
    end: int,
    types: Seq<FileType>,
    limit: Option<int>,
)
    requires
        r1 == spec_scan(image, start, end, types, limit),
        r2 == spec_scan(image, start, end, types, limit),
    ensures
        r1 == r2,
{
}

/// A carve attempt on a buffer too short for any header — a magic match
/// on the image's very last byte — carves nothing, whatever the type.
pub proof fn lemma_tiny_buffer(bytes: Seq<u8>, ft: FileType)
    requires
        bytes.len() <= 1,
    ensures
        spec_carve(bytes, ft) == 0,
{
}

/// With every pattern non-empty, ordered non-overlapping matches are at
/// most as many as the haystack has bytes.
proof fn lemma_ordered_matches_len(pats: Seq<Seq<u8>>, hay: Seq<u8>, ms: Seq<MatchPos>)
    requires
        forall|i: int| 0 <= i < ms.len() ==> match_wf(pats, hay, #[trigger] ms[i]),
        forall|i: int|
            0 <= i && i + 1 < ms.len() ==> (#[trigger] ms[i]).start + pats[ms[i].pattern as int].len()
                <= ms[i + 1].start,
        forall|p: int| 0 <= p < pats.len() ==> (#[trigger] pats[p]).len() >= 1,
    ensures
        ms.len() <= hay.len(),
{
    if ms.len() > 0 {
        let last = ms.len() - 1;
        lemma_match_start_ge(pats, hay, ms, last);
        assert(match_wf(pats, hay, ms[last]));
        assert(ms[last].start + pats[ms[last].pattern as int].len() <= hay.len());
        assert(pats[ms[last].pattern as int].len() >= 1);
    }
}

/// In an ordered non-overlapping match sequence with non-empty patterns,
/// the `i`-th match starts at offset `i` or later.
proof fn lemma_match_start_ge(pats: Seq<Seq<u8>>, hay: Seq<u8>, ms: Seq<MatchPos>, i: int)
    requires
        forall|j: int| 0 <= j < ms.len() ==> match_wf(pats, hay, #[trigger] ms[j]),
        forall|j: int|
            0 <= j && j + 1 < ms.len() ==> (#[trigger] ms[j]).start + pats[ms[j].pattern as int].len()
                <= ms[j + 1].start,
        forall|p: int| 0 <= p < pats.len() ==> (#[trigger] pats[p]).len() >= 1,
        0 <= i < ms.len(),
    ensures
        ms[i].start >= i,
    decreases i,
{
    if i > 0 {
        lemma_match_start_ge(pats, hay, ms, i - 1);
        assert(match_wf(pats, hay, ms[i - 1]));
        assert(ms[i - 1].start + pats[ms[i - 1].pattern as int].len() <= ms[i].start);
        assert(pats[ms[i - 1].pattern as int].len() >= 1);
    }
}

} // verus!
