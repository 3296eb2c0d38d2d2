//! The measured components of a GRUB boot with a single kernel command line
//! per kernel, and their digests.
use vstd::prelude::*;

use crate::grub::GrubArtifacts;
use crate::reference::{
    calculate_authenticode_hash, digest_of, hash_bytes, hash_text, hex_lower, lemma_pe_digests_none,
    pe_digests, text_digest, ReferenceError, ShowReferenceValueHashAlgo,
};
use crate::text::str_views;

verus! {

/// A kernel and initrd image with the command line that boots them.
#[derive(Debug)]
pub struct KernelArtifacts {
    pub kernel_cmdline: String,
    pub kernel: Vec<u8>,
    pub initrd: Vec<u8>,
}

/// The boot components that the firmware and GRUB measure, one pair of GRUB
/// files and kernel per boot entry.
#[derive(Debug)]
pub struct MeasurementedBootComponents(pub Vec<(GrubArtifacts, KernelArtifacts)>);

/// The digests of the measured boot components, component by component, in
/// the order of the boot entries.
#[derive(Debug)]
pub struct BootComponentsHashValues {
    pub kernel_cmdline_hashs: Vec<String>,
    pub kernel_hashs: Vec<String>,
    pub initrd_hashs: Vec<String>,
    pub grub_authenticode_hashes: Vec<String>,
    pub shim_authenticode_hashes: Vec<String>,
}

/// The hex digests of the command lines.
pub open spec fn cmdline_hashes(
    algo: ShowReferenceValueHashAlgo,
    ps: Seq<(GrubArtifacts, KernelArtifacts)>,
) -> Seq<Seq<char>> {
    ps.map_values(|p: (GrubArtifacts, KernelArtifacts)| text_digest(algo, p.1.kernel_cmdline@))
}

/// The hex digests of the kernel images.
pub open spec fn kernel_hashes(
    algo: ShowReferenceValueHashAlgo,
    ps: Seq<(GrubArtifacts, KernelArtifacts)>,
) -> Seq<Seq<char>> {
    ps.map_values(
        |p: (GrubArtifacts, KernelArtifacts)| hex_lower(digest_of(algo, p.1.kernel@)),
    )
}

/// The hex digests of the initrd images.
pub open spec fn initrd_hashes(
    algo: ShowReferenceValueHashAlgo,
    ps: Seq<(GrubArtifacts, KernelArtifacts)>,
) -> Seq<Seq<char>> {
    ps.map_values(
        |p: (GrubArtifacts, KernelArtifacts)| hex_lower(digest_of(algo, p.1.initrd@)),
    )
}

/// The GRUB binaries, or the shim binaries.
pub open spec fn binaries(ps: Seq<(GrubArtifacts, KernelArtifacts)>, shim: bool) -> Seq<Seq<u8>> {
    ps.map_values(
        |p: (GrubArtifacts, KernelArtifacts)|
            if shim {
                p.0.shim_data@
            } else {
                p.0.grub_data@
            },
    )
}

impl MeasurementedBootComponents {
    /// The hex Authenticode digests of the GRUB binaries, or of the shims.
    fn binary_hashes(&self, algo: ShowReferenceValueHashAlgo, shim: bool) -> (r: Result<
        Vec<String>,
        ReferenceError,
    >)
        ensures
            match pe_digests(algo, binaries(self.0@, shim)) {
                Some(d) => r matches Ok(v) && str_views(v@) == d,
                None => r == Err::<Vec<String>, ReferenceError>(ReferenceError::Authenticode),
            },
    {
        let ghost images = binaries(self.0@, shim);
        let mut out: Vec<String> = Vec::new();
        let mut i: usize = 0;
        while i < self.0.len()
            invariant
                i <= self.0@.len(),
                images == binaries(self.0@, shim),
                pe_digests(algo, images.take(i as int)) == Some(str_views(out@)),
                out@.len() == i,
            decreases self.0.len() - i,
        {
            let g = &self.0[i].0;
            let image = if shim {
                g.shim_data.as_slice()
            } else {
                g.grub_data.as_slice()
            };
            assert(images.take(i + 1).drop_last() =~= images.take(i as int));
            match calculate_authenticode_hash(algo, image) {
                Ok(h) => {
                    let ghost o0 = out@;
                    out.push(h);
                    assert(str_views(out@) =~= str_views(o0).push(h@));
                },
                Err(e) => {
                    proof {
                        lemma_pe_digests_none(algo, images, i + 1);
                    }
                    return Err(e);
                },
            }
            i += 1;
        }
        assert(images.take(self.0@.len() as int) =~= images);
        Ok(out)
    }

    /// The digests of the command lines, kernels, initrds, GRUB and shim
    /// binaries under `algo`; fails where a GRUB or shim binary has no
    /// Authenticode digest.
    pub fn cal_hash(&self, algo: ShowReferenceValueHashAlgo) -> (r: Result<
        BootComponentsHashValues,
        ReferenceError,
    >)
        ensures
            match (
                pe_digests(algo, binaries(self.0@, false)),
                pe_digests(algo, binaries(self.0@, true)),
            ) {
                (Some(g), Some(s)) => r matches Ok(h) && str_views(h.kernel_cmdline_hashs@)
                    == cmdline_hashes(algo, self.0@) && str_views(h.kernel_hashs@) == kernel_hashes(
                    algo,
                    self.0@,
                ) && str_views(h.initrd_hashs@) == initrd_hashes(algo, self.0@) && str_views(
                    h.grub_authenticode_hashes@,
                ) == g && str_views(h.shim_authenticode_hashes@) == s,
                _ => r == Err::<BootComponentsHashValues, ReferenceError>(
                    ReferenceError::Authenticode,
                ),
            },
    {
        let ps = &self.0;
        let mut cmdlines: Vec<String> = Vec::new();
        let mut kernels: Vec<String> = Vec::new();
        let mut initrds: Vec<String> = Vec::new();
        let mut i: usize = 0;
        while i < ps.len()
            invariant
                i <= ps@.len(),
                ps@ == self.0@,
                str_views(cmdlines@) == cmdline_hashes(algo, ps@.take(i as int)),
                str_views(kernels@) == kernel_hashes(algo, ps@.take(i as int)),
                str_views(initrds@) == initrd_hashes(algo, ps@.take(i as int)),
            decreases ps.len() - i,
        {
            let k = &ps[i].1;
            let c = hash_text(algo, k.kernel_cmdline.as_str());
            let kd = hash_bytes(algo, k.kernel.as_slice());
            let id = hash_bytes(algo, k.initrd.as_slice());
            let ghost (c0, k0, i0) = (cmdlines@, kernels@, initrds@);
            cmdlines.push(c);
            kernels.push(kd);
            initrds.push(id);
            proof {
                let t = ps@.take(i as int);
                assert(ps@.take(i + 1) =~= t.push(ps@[i as int]));
                assert(str_views(cmdlines@) =~= str_views(c0).push(c@));
                assert(str_views(kernels@) =~= str_views(k0).push(kd@));
                assert(str_views(initrds@) =~= str_views(i0).push(id@));
                assert(cmdline_hashes(algo, t.push(ps@[i as int])) =~= cmdline_hashes(algo, t).push(
                    c@,
                ));
                assert(kernel_hashes(algo, t.push(ps@[i as int])) =~= kernel_hashes(algo, t).push(
                    kd@,
                ));
                assert(initrd_hashes(algo, t.push(ps@[i as int])) =~= initrd_hashes(algo, t).push(
                    id@,
                ));
            }
            i += 1;
        }
        assert(ps@.take(ps@.len() as int) =~= ps@);
        let grubs = match self.binary_hashes(algo, false) {
            Ok(v) => v,
            Err(e) => return Err(e),
        };
        let shims = match self.binary_hashes(algo, true) {
            Ok(v) => v,
            Err(e) => return Err(e),
        };
        Ok(
            BootComponentsHashValues {
                kernel_cmdline_hashs: cmdlines,
                kernel_hashs: kernels,
                initrd_hashs: initrds,
                grub_authenticode_hashes: grubs,
                shim_authenticode_hashes: shims,
            },
        )
    }
}

} // verus!
