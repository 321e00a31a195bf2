//! The corpus: the registry of file-type descriptors the carver knows.
//!
//! The corpus is immutable after construction except for each entry's
//! `index` counter, which only ever grows.  The pattern set handed to the
//! matcher lists the entries' magics in corpus order, so a pattern index
//! reported by the matcher is a corpus index.

use vstd::prelude::*;

use crate::digits::{lemma_padded8_injective, padded8_string, spec_padded8};
use crate::patterns::{ac_build_ok, ac_patterns, build_matcher};

verus! {

/// How the FourCC driver reacts to a chunk it does not recognize.
#[derive(Clone, Copy, Debug, Default, PartialEq, Eq, Structural)]
pub enum CarvingMethod {
    /// Halt whenever a chunk is not recognized.
    #[default]
    Strict,
    /// Tolerate unknown chunks; rely on the end marker or the maximum size
    /// to terminate.
    Simple,
    /// Reserved for grammar-aware recovery; behaves as `Strict` does.
    Fancy,
}

/// Which carving strategy, with which format parser, a file type uses.
#[derive(Clone, Copy, Debug, PartialEq, Eq, Structural)]
pub enum CarvingFunc {
    /// Size-carve with the BMP header parser.
    SizeBmp,
    /// Size-carve with the WAV header parser.
    SizeWav,
    /// FourCC-carve with the PNG header and chunk parsers.
    FourccPng,
    /// FourCC-carve with the JPEG segment parser.
    FourccJpeg,
}

/// One corpus entry: what to search for and how to carve it.
#[derive(Debug)]
pub struct FileType {
    /// The magic bytes to look for; never empty.
    pub magic: Vec<u8>,
    /// The file type extension, also the file name stem.
    pub ext: String,
    /// The strategy and parser used to carve.
    pub carving_func: CarvingFunc,
    /// The category directory, such as `images/png`.
    pub category: String,
    /// The minimum payload size to consider for this file type.
    pub min_size: usize,
    /// The maximum number of bytes a carve may walk.
    pub max_size: usize,
    /// The per-type counter of files carved so far; it only ever grows.
    pub index: usize,
    /// The method used by the FourCC driver.
    pub carving_method: CarvingMethod,
}

/// The name an artefact of this type and counter value is written to:
/// `{category}/{ext}_{counter, eight digits}.{ext}`.
pub open spec fn spec_file_name(category: Seq<char>, ext: Seq<char>, n: int) -> Seq<char> {
    category + "/"@ + ext + "_"@ + spec_padded8(n) + "."@ + ext
}

/// Within one category and extension, two different counter values give
/// two different file names: numbering never collides.
pub proof fn lemma_file_name_unique(category: Seq<char>, ext: Seq<char>, n1: int, n2: int)
    requires
        0 <= n1,
        0 <= n2,
        n1 != n2,
    ensures
        spec_file_name(category, ext, n1) != spec_file_name(category, ext, n2),
{
    if spec_file_name(category, ext, n1) == spec_file_name(category, ext, n2) {
        let s1 = spec_file_name(category, ext, n1);
        let s2 = spec_file_name(category, ext, n2);
        let pre = category + "/"@ + ext + "_"@;
        let pad1 = spec_padded8(n1);
        let pad2 = spec_padded8(n2);
        assert(s1.len() == pre.len() + pad1.len() + "."@.len() + ext.len());
        assert(s2.len() == pre.len() + pad2.len() + "."@.len() + ext.len());
        assert(pad1.len() == pad2.len());
        assert(pad1 =~= pad2) by {
            assert forall|i: int| 0 <= i < pad1.len() implies pad1[i] == pad2[i] by {
                assert(s1[pre.len() + i] == pad1[i]);
                assert(s2[pre.len() + i] == pad2[i]);
            }
        }
        lemma_padded8_injective(n1, n2);
    }
}

impl FileType {
    /// Assign the name for the next artefact of this type and advance the
    /// counter: the name carries the pre-increment counter value, and the
    /// counter only ever grows.
    pub fn next_file_name(&mut self) -> (r: String)
        requires
            old(self).index < usize::MAX,
        ensures
            r@ == spec_file_name(old(self).category@, old(self).ext@, old(self).index as int),
            final(self).index == old(self).index + 1,
            final(self).magic == old(self).magic,
            final(self).ext == old(self).ext,
            final(self).carving_func == old(self).carving_func,
            final(self).category == old(self).category,
            final(self).min_size == old(self).min_size,
            final(self).max_size == old(self).max_size,
            final(self).carving_method == old(self).carving_method,
    {
        let mut s = String::new();
        s.append(self.category.as_str());
        s.append("/");
        s.append(self.ext.as_str());
        s.append("_");
        let padded = padded8_string(self.index as u64);
        s.append(padded.as_str());
        s.append(".");
        s.append(self.ext.as_str());
        self.index = self.index + 1;
        proof {
            assert(s@ =~= spec_file_name(old(self).category@, old(self).ext@, old(
                self,
            ).index as int));
        }
        s
    }
}

/// The BMP descriptor, with `min_size` injected and the counter at `n`.
pub open spec fn spec_ft_bmp(ft: FileType, min_size: int, n: int) -> bool {
    &&& ft.magic@ == seq![0x42u8, 0x4Du8]
    &&& ft.ext@ == "bmp"@
    &&& ft.carving_func == CarvingFunc::SizeBmp
    &&& ft.category@ == "images/bmp"@
    &&& ft.min_size == min_size
    &&& ft.max_size == 1000000
    &&& ft.index == n
    &&& ft.carving_method == CarvingMethod::Simple
}

/// The WAV descriptor, with `min_size` injected and the counter at `n`.
pub open spec fn spec_ft_wav(ft: FileType, min_size: int, n: int) -> bool {
    &&& ft.magic@ == seq![0x52u8, 0x49u8, 0x46u8, 0x46u8]
    &&& ft.ext@ == "wav"@
    &&& ft.carving_func == CarvingFunc::SizeWav
    &&& ft.category@ == "audio/wav"@
    &&& ft.min_size == min_size
    &&& ft.max_size == 1000000
    &&& ft.index == n
    &&& ft.carving_method == CarvingMethod::Simple
}

/// The PNG descriptor, with `min_size` injected and the counter at `n`.
pub open spec fn spec_ft_png(ft: FileType, min_size: int, n: int) -> bool {
    &&& ft.magic@ == seq![0x89u8, 0x50u8, 0x4Eu8, 0x47u8, 0x0Du8, 0x0Au8, 0x1Au8, 0x0Au8]
    &&& ft.ext@ == "png"@
    &&& ft.carving_func == CarvingFunc::FourccPng
    &&& ft.category@ == "images/png"@
    &&& ft.min_size == min_size
    &&& ft.max_size == 1000000
    &&& ft.index == n
    &&& ft.carving_method == CarvingMethod::Simple
}

/// The JPEG descriptor, with `min_size` injected and the counter at `n`.
pub open spec fn spec_ft_jpg(ft: FileType, min_size: int, n: int) -> bool {
    &&& ft.magic@ == seq![0xFFu8, 0xD8u8, 0xFFu8]
    &&& ft.ext@ == "jpg"@
    &&& ft.carving_func == CarvingFunc::FourccJpeg
    &&& ft.category@ == "images/jpg"@
    &&& ft.min_size == min_size
    &&& ft.max_size == 1000000
    &&& ft.index == n
    &&& ft.carving_method == CarvingMethod::Strict
}

/// An entry's extension occurs in the list.
pub open spec fn spec_ext_listed(ft: FileType, exts: Seq<String>) -> bool {
    exists|i: int| 0 <= i < exts.len() && exts[i]@ == ft.ext@
}

/// The list of all file types that we can carve.
#[derive(Debug)]
pub struct Corpus(pub Vec<FileType>);

impl Corpus {
    /// The entries' magics, in corpus order: the matcher's pattern set.
    pub open spec fn spec_magics(self) -> Seq<Seq<u8>> {
        self.0@.map_values(|ft: FileType| ft.magic@)
    }

    /// Every entry's magic is non-empty, as a searchable signature must be.
    pub open spec fn spec_wf(self) -> bool {
        forall|t: int| 0 <= t < self.0@.len() ==> (#[trigger] self.0@[t]).magic@.len() >= 1
    }

    /// Define all the file types to carve: everything we know about each
    /// one — its magic bytes, how to carve it, its category — with the
    /// minimum size injected from the options and every counter at zero.
    pub fn new(min_size: usize) -> (r: Self)
        ensures
            r.0@.len() == 4,
            spec_ft_bmp(r.0@[0], min_size as int, 0),
            spec_ft_wav(r.0@[1], min_size as int, 0),
            spec_ft_png(r.0@[2], min_size as int, 0),
            spec_ft_jpg(r.0@[3], min_size as int, 0),
            r.spec_wf(),
    {
        let mut vec: Vec<FileType> = Vec::new();

        // BMP
        let mut magic: Vec<u8> = Vec::new();
        magic.push(0x42);
        magic.push(0x4D);
        proof {
            assert(magic@ =~= seq![0x42u8, 0x4Du8]);
        }
        vec.push(
            FileType {
                magic,
                ext: "bmp".to_owned(),
                carving_func: CarvingFunc::SizeBmp,
                category: "images/bmp".to_owned(),
                min_size,
                max_size: 1000000,
                index: 0,
                carving_method: CarvingMethod::Simple,
            },
        );

        // WAV
        let mut magic: Vec<u8> = Vec::new();
        magic.push(0x52);
        magic.push(0x49);
        magic.push(0x46);
        magic.push(0x46);
        proof {
            assert(magic@ =~= seq![0x52u8, 0x49u8, 0x46u8, 0x46u8]);
        }
        vec.push(
            FileType {
                magic,
                ext: "wav".to_owned(),
                carving_func: CarvingFunc::SizeWav,
                category: "audio/wav".to_owned(),
                min_size,
                max_size: 1000000,
                index: 0,
                carving_method: CarvingMethod::Simple,
            },
        );

        // PNG
        let mut magic: Vec<u8> = Vec::new();
        magic.push(0x89);
        magic.push(0x50);
        magic.push(0x4E);
        magic.push(0x47);
        magic.push(0x0D);
        magic.push(0x0A);
        magic.push(0x1A);
        magic.push(0x0A);
        proof {
            assert(magic@ =~= seq![0x89u8, 0x50u8, 0x4Eu8, 0x47u8, 0x0Du8, 0x0Au8, 0x1Au8, 0x0Au8]);
        }
        vec.push(
            FileType {
                magic,
                ext: "png".to_owned(),
                carving_func: CarvingFunc::FourccPng,
                category: "images/png".to_owned(),
                min_size,
                max_size: 1000000,
                index: 0,
                carving_method: CarvingMethod::Simple,
            },
        );

        // JPEG
        let mut magic: Vec<u8> = Vec::new();
        magic.push(0xFF);
        magic.push(0xD8);
        magic.push(0xFF);
        proof {
            assert(magic@ =~= seq![0xFFu8, 0xD8u8, 0xFFu8]);
        }
        vec.push(
            FileType {
                magic,
                ext: "jpg".to_owned(),
                carving_func: CarvingFunc::FourccJpeg,
                category: "images/jpg".to_owned(),
                min_size,
                max_size: 1000000,
                index: 0,
                carving_method: CarvingMethod::Strict,
            },
        );

        Corpus(vec)
    }

    /// The pattern set to give to the matcher: the list of magic bytes, in
    /// corpus order, so that pattern indices are corpus indices.  `None`
    /// exactly when the matcher's build refuses this pattern set.
    pub fn patterns(&self) -> (r: Option<aho_corasick::AhoCorasick>)
        ensures
            r matches Some(ac) ==> ac_patterns(ac) == self.spec_magics(),
            r is Some <==> ac_build_ok(self.spec_magics()),
    {
        let mut pats: Vec<Vec<u8>> = Vec::new();
        let mut i: usize = 0;
        while i < self.0.len()
            invariant
                i <= self.0@.len(),
                pats@.len() == i as int,
                forall|j: int| 0 <= j < i as int ==> pats@[j]@ == self.0@[j].magic@,
            decreases self.0@.len() - i,
        {
            let mut m: Vec<u8> = Vec::new();
            let ft_magic: &Vec<u8> = &self.0[i].magic;
            let mut k: usize = 0;
            while k < ft_magic.len()
                invariant
                    k <= ft_magic@.len(),
                    m@ == ft_magic@.subrange(0, k as int),
                decreases ft_magic@.len() - k,
            {
                m.push(ft_magic[k]);
                proof {
                    assert(m@ =~= ft_magic@.subrange(0, k + 1));
                }
                k = k + 1;
            }
            proof {
                assert(m@ =~= ft_magic@);
            }
            pats.push(m);
            i = i + 1;
        }
        let r = build_matcher(&pats);
        proof {
            assert(pats@.map_values(|p: Vec<u8>| p@) =~= self.spec_magics());
        }
        r
    }

    /// Only keep the entries whose extension is in the list passed; an
    /// empty list keeps them all.
    pub fn retain(&mut self, ext_list: &Vec<String>)
        ensures
            final(self).0@ == if ext_list@.len() == 0 {
                old(self).0@
            } else {
                old(self).0@.filter(|ft: FileType| spec_ext_listed(ft, ext_list@))
            },
            old(self).spec_wf() ==> final(self).spec_wf(),
    {
        if ext_list.len() == 0 {
            return ;
        }
        let mut kept: Vec<FileType> = Vec::new();
        let ghost mut done: Seq<FileType> = Seq::empty();
        proof {
            reveal(Seq::filter);
            assert(done.filter(|ft: FileType| spec_ext_listed(ft, ext_list@)) =~= Seq::empty());
        }
        while self.0.len() > 0
            invariant
                old(self).0@ == done + self.0@,
                kept@ == done.filter(|ft: FileType| spec_ext_listed(ft, ext_list@)),
            decreases self.0@.len(),
        {
            let ft = self.0.remove(0);
            let listed = ext_in_list(&ft.ext, ext_list);
            proof {
                reveal(Seq::filter);
                assert(done.push(ft).drop_last() =~= done);
                assert(done.push(ft).last() == ft);
                if listed {
                    assert(done.push(ft).filter(|f: FileType| spec_ext_listed(f, ext_list@))
                        =~= done.filter(|f: FileType| spec_ext_listed(f, ext_list@)) + seq![ft]);
                } else {
                    assert(done.push(ft).filter(|f: FileType| spec_ext_listed(f, ext_list@))
                        =~= done.filter(|f: FileType| spec_ext_listed(f, ext_list@)));
                }
                assert(old(self).0@ =~= done.push(ft) + self.0@);
            }
            if listed {
                kept.push(ft);
                proof {
                    done = done.push(kept@.last());
                }
            } else {
                proof {
                    done = done.push(ft);
                }
            }
        }
        proof {
            assert(old(self).0@ =~= done);
        }
        self.0 = kept;
        proof {
            if old(self).spec_wf() {
                lemma_filter_members(old(self).0@, |ft: FileType| spec_ext_listed(ft, ext_list@));
                assert forall|t: int| 0 <= t < self.0@.len() implies (#[trigger] self.0@[t]).magic@.len()
                    >= 1 by {
                    assert(old(self).0@.contains(self.0@[t]));
                    let j = choose|j: int|
                        0 <= j < old(self).0@.len() && old(self).0@[j] == self.0@[t];
                    assert(old(self).0@[j].magic@.len() >= 1);
                }
            }
        }
    }
}

/// Every element a filter keeps was in the sequence it was taken from.
proof fn lemma_filter_members<A>(s: Seq<A>, p: spec_fn(A) -> bool)
    ensures
        forall|i: int| 0 <= i < s.filter(p).len() ==> s.contains(#[trigger] s.filter(p)[i]),
    decreases s.len(),
{
    reveal(Seq::filter);
    if s.len() > 0 {
        lemma_filter_members(s.drop_last(), p);
        let f = s.filter(p);
        let fd = s.drop_last().filter(p);
        assert forall|i: int| 0 <= i < f.len() implies s.contains(f[i]) by {
            if i < fd.len() {
                assert(f[i] == fd[i]);
                assert(s.drop_last().contains(fd[i]));
                let j = choose|j: int|
                    0 <= j < s.drop_last().len() && s.drop_last()[j] == fd[i];
                assert(s[j] == f[i]);
            } else {
                assert(f[i] == s.last());
                assert(s[s.len() - 1] == f[i]);
            }
        }
    }
}

/// Whether `ext` occurs in the list.
fn ext_in_list(ext: &String, ext_list: &Vec<String>) -> (r: bool)
    ensures
        r == (exists|i: int| 0 <= i < ext_list@.len() && ext_list@[i]@ == ext@),
{
    let mut i: usize = 0;
    while i < ext_list.len()
        invariant
            i <= ext_list@.len(),
            forall|j: int| 0 <= j < i as int ==> ext_list@[j]@ != ext@,
        decreases ext_list@.len() - i,
    {
        if ext_list[i] == *ext {
            return true;
        }
        i = i + 1;
    }
    false
}

} // verus!
