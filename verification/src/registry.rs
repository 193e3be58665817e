//! The catalog of downloadable speech models and what the app knows about
//! their files on disk: where they go, where they come from, and whether a
//! model is there in full, in part, or not at all.
use vstd::prelude::*;
use crate::whisper::english_only_path;

verus! {

/// What a catalog entry is for.
#[derive(Clone, Copy, PartialEq, Eq, Structural)]
pub enum EngineKind {
    Whisper,
    Parakeet,
    /// Not an ASR engine: speaker diarization models for meetings.
    Diarization,
}

/// One file of a model, at the size its download must reach.
#[derive(Clone, Copy)]
pub struct ModelFile {
    pub name: &'static str,
    pub size: u64,
    /// The file's SHA-256 digest in lowercase hexadecimal, where the catalog
    /// lists one; a download must match it before it takes the file's name.
    pub sha256: Option<&'static str>,
}

/// How much of a model is on disk.
#[derive(Clone, Copy, PartialEq, Eq, Structural)]
pub enum ModelState {
    /// Nothing of it.
    Missing,
    /// Some bytes, but not every file at its catalog size.
    Partial,
    /// Every file at its catalog size.
    Complete,
}

/// A downloadable model: its id, engine, source, and files.
#[derive(Clone, Copy)]
pub struct ModelVariant {
    pub id: &'static str,
    pub engine: EngineKind,
    pub base_url: &'static str,
    pub dest_subdir: &'static str,
    pub files: &'static [ModelFile],
}

/// Number of catalog entries.
pub const CATALOG_LEN: usize = 12;

/// Every model the app can download. Whisper variants share one `whisper/`
/// directory (distinct file names); each Parakeet variant has its own, since
/// their file names collide.
pub open spec fn catalog() -> Seq<ModelVariant> {
    seq![
        ModelVariant {
            id: "whisper-tiny",
            engine: EngineKind::Whisper,
            base_url: "https://huggingface.co/ggerganov/whisper.cpp/resolve/main",
            dest_subdir: "whisper",
            files: &[ModelFile { name: "ggml-tiny.en.bin", size: 77_704_715, sha256: None }],
        },
        ModelVariant {
            id: "whisper-base",
            engine: EngineKind::Whisper,
            base_url: "https://huggingface.co/ggerganov/whisper.cpp/resolve/main",
            dest_subdir: "whisper",
            files: &[ModelFile { name: "ggml-base.en.bin", size: 147_964_211, sha256: None }],
        },
        ModelVariant {
            id: "whisper-small",
            engine: EngineKind::Whisper,
            base_url: "https://huggingface.co/ggerganov/whisper.cpp/resolve/main",
            dest_subdir: "whisper",
            files: &[ModelFile { name: "ggml-small.en.bin", size: 487_614_201, sha256: None }],
        },
        ModelVariant {
            id: "whisper-tiny-multi",
            engine: EngineKind::Whisper,
            base_url: "https://huggingface.co/ggerganov/whisper.cpp/resolve/main",
            dest_subdir: "whisper",
            files: &[ModelFile { name: "ggml-tiny.bin", size: 77_691_713, sha256: None }],
        },
        ModelVariant {
            id: "whisper-base-multi",
            engine: EngineKind::Whisper,
            base_url: "https://huggingface.co/ggerganov/whisper.cpp/resolve/main",
            dest_subdir: "whisper",
            files: &[ModelFile { name: "ggml-base.bin", size: 147_951_465, sha256: None }],
        },
        ModelVariant {
            id: "whisper-small-multi",
            engine: EngineKind::Whisper,
            base_url: "https://huggingface.co/ggerganov/whisper.cpp/resolve/main",
            dest_subdir: "whisper",
            files: &[ModelFile { name: "ggml-small.bin", size: 487_601_967, sha256: None }],
        },
        ModelVariant {
            id: "whisper-medium-multi",
            engine: EngineKind::Whisper,
            base_url: "https://huggingface.co/ggerganov/whisper.cpp/resolve/main",
            dest_subdir: "whisper",
            files: &[ModelFile { name: "ggml-medium.bin", size: 1_533_763_059, sha256: None }],
        },
        ModelVariant {
            id: "whisper-large-v3-turbo",
            engine: EngineKind::Whisper,
            base_url: "https://huggingface.co/ggerganov/whisper.cpp/resolve/main",
            dest_subdir: "whisper",
            files: &[ModelFile { name: "ggml-large-v3-turbo.bin", size: 1_624_555_275, sha256: None }],
        },
        ModelVariant {
            id: "parakeet-v2",
            engine: EngineKind::Parakeet,
            base_url: "https://huggingface.co/csukuangfj/sherpa-onnx-nemo-parakeet-tdt-0.6b-v2-int8/resolve/main",
            dest_subdir: "parakeet-v2",
            files: &[
                ModelFile { name: "encoder.int8.onnx", size: 652_184_296, sha256: None },
                ModelFile { name: "decoder.int8.onnx", size: 7_257_753, sha256: None },
                ModelFile { name: "joiner.int8.onnx", size: 1_739_080, sha256: None },
                ModelFile { name: "tokens.txt", size: 9_384, sha256: None },
            ],
        },
        ModelVariant {
            id: "diar-segmentation",
            engine: EngineKind::Diarization,
            base_url: "https://huggingface.co/csukuangfj/sherpa-onnx-pyannote-segmentation-3-0/resolve/main",
            dest_subdir: "diarization",
            files: &[ModelFile { name: "model.onnx", size: 5_992_913, sha256: None }],
        },
        ModelVariant {
            id: "diar-embedding",
            engine: EngineKind::Diarization,
            base_url: "https://huggingface.co/csukuangfj/speaker-embedding-models/resolve/main",
            dest_subdir: "diarization",
            files: &[ModelFile { name: "nemo_en_titanet_small.onnx", size: 40_257_283, sha256: None }],
        },
        ModelVariant {
            id: "parakeet-v3",
            engine: EngineKind::Parakeet,
            base_url: "https://huggingface.co/csukuangfj/sherpa-onnx-nemo-parakeet-tdt-0.6b-v3-int8/resolve/main",
            dest_subdir: "parakeet-v3",
            files: &[
                ModelFile { name: "encoder.int8.onnx", size: 652_184_281, sha256: None },
                ModelFile { name: "decoder.int8.onnx", size: 11_845_275, sha256: None },
                ModelFile { name: "joiner.int8.onnx", size: 6_355_277, sha256: None },
                ModelFile { name: "tokens.txt", size: 93_939, sha256: None },
            ],
        },
    ]
}

/// Catalog entry `k`.
pub fn catalog_entry(k: usize) -> (v: ModelVariant)
    requires
        k < CATALOG_LEN,
    ensures
        v == catalog()[k as int],
{
    match k {
        0 => ModelVariant {
            id: "whisper-tiny",
            engine: EngineKind::Whisper,
            base_url: "https://huggingface.co/ggerganov/whisper.cpp/resolve/main",
            dest_subdir: "whisper",
            files: &[ModelFile { name: "ggml-tiny.en.bin", size: 77_704_715, sha256: None }],
        },
        1 => ModelVariant {
            id: "whisper-base",
            engine: EngineKind::Whisper,
            base_url: "https://huggingface.co/ggerganov/whisper.cpp/resolve/main",
            dest_subdir: "whisper",
            files: &[ModelFile { name: "ggml-base.en.bin", size: 147_964_211, sha256: None }],
        },
        2 => ModelVariant {
            id: "whisper-small",
            engine: EngineKind::Whisper,
            base_url: "https://huggingface.co/ggerganov/whisper.cpp/resolve/main",
            dest_subdir: "whisper",
            files: &[ModelFile { name: "ggml-small.en.bin", size: 487_614_201, sha256: None }],
        },
        3 => ModelVariant {
            id: "whisper-tiny-multi",
            engine: EngineKind::Whisper,
            base_url: "https://huggingface.co/ggerganov/whisper.cpp/resolve/main",
            dest_subdir: "whisper",
            files: &[ModelFile { name: "ggml-tiny.bin", size: 77_691_713, sha256: None }],
        },
        4 => ModelVariant {
            id: "whisper-base-multi",
            engine: EngineKind::Whisper,
            base_url: "https://huggingface.co/ggerganov/whisper.cpp/resolve/main",
            dest_subdir: "whisper",
            files: &[ModelFile { name: "ggml-base.bin", size: 147_951_465, sha256: None }],
        },
        5 => ModelVariant {
            id: "whisper-small-multi",
            engine: EngineKind::Whisper,
            base_url: "https://huggingface.co/ggerganov/whisper.cpp/resolve/main",
            dest_subdir: "whisper",
            files: &[ModelFile { name: "ggml-small.bin", size: 487_601_967, sha256: None }],
        },
        6 => ModelVariant {
            id: "whisper-medium-multi",
            engine: EngineKind::Whisper,
            base_url: "https://huggingface.co/ggerganov/whisper.cpp/resolve/main",
            dest_subdir: "whisper",
            files: &[ModelFile { name: "ggml-medium.bin", size: 1_533_763_059, sha256: None }],
        },
        7 => ModelVariant {
            id: "whisper-large-v3-turbo",
            engine: EngineKind::Whisper,
            base_url: "https://huggingface.co/ggerganov/whisper.cpp/resolve/main",
            dest_subdir: "whisper",
            files: &[ModelFile { name: "ggml-large-v3-turbo.bin", size: 1_624_555_275, sha256: None }],
        },
        8 => ModelVariant {
            id: "parakeet-v2",
            engine: EngineKind::Parakeet,
            base_url: "https://huggingface.co/csukuangfj/sherpa-onnx-nemo-parakeet-tdt-0.6b-v2-int8/resolve/main",
            dest_subdir: "parakeet-v2",
            files: &[
                ModelFile { name: "encoder.int8.onnx", size: 652_184_296, sha256: None },
                ModelFile { name: "decoder.int8.onnx", size: 7_257_753, sha256: None },
                ModelFile { name: "joiner.int8.onnx", size: 1_739_080, sha256: None },
                ModelFile { name: "tokens.txt", size: 9_384, sha256: None },
            ],
        },
        9 => ModelVariant {
            id: "diar-segmentation",
            engine: EngineKind::Diarization,
            base_url: "https://huggingface.co/csukuangfj/sherpa-onnx-pyannote-segmentation-3-0/resolve/main",
            dest_subdir: "diarization",
            files: &[ModelFile { name: "model.onnx", size: 5_992_913, sha256: None }],
        },
        10 => ModelVariant {
            id: "diar-embedding",
            engine: EngineKind::Diarization,
            base_url: "https://huggingface.co/csukuangfj/speaker-embedding-models/resolve/main",
            dest_subdir: "diarization",
            files: &[ModelFile { name: "nemo_en_titanet_small.onnx", size: 40_257_283, sha256: None }],
        },
        _ => ModelVariant {
            id: "parakeet-v3",
            engine: EngineKind::Parakeet,
            base_url: "https://huggingface.co/csukuangfj/sherpa-onnx-nemo-parakeet-tdt-0.6b-v3-int8/resolve/main",
            dest_subdir: "parakeet-v3",
            files: &[
                ModelFile { name: "encoder.int8.onnx", size: 652_184_281, sha256: None },
                ModelFile { name: "decoder.int8.onnx", size: 11_845_275, sha256: None },
                ModelFile { name: "joiner.int8.onnx", size: 6_355_277, sha256: None },
                ModelFile { name: "tokens.txt", size: 93_939, sha256: None },
            ],
        },
    }
}

/// Where every catalog file is also published, for networks that block the
/// primary host. Asset names are prefixed with the variant id because file
/// names collide across variants.
pub const MIRROR_BASE: &'static str = "https://github.com/srikark283/patter/releases/download/models-v1";

/// The first catalog entry from `k` on whose id is `id`.
pub open spec fn lookup_from(id: Seq<char>, k: nat) -> Option<ModelVariant>
    decreases CATALOG_LEN - k,
{
    if k >= CATALOG_LEN {
        None
    } else if catalog()[k as int].id@ == id {
        Some(catalog()[k as int])
    } else {
        lookup_from(id, k + 1)
    }
}

/// The catalog entry whose id is `id`.
pub open spec fn lookup(id: Seq<char>) -> Option<ModelVariant> {
    lookup_from(id, 0)
}

/// Finds the catalog entry for `id`.
pub fn find_variant(id: &str) -> (r: Option<ModelVariant>)
    ensures
        r == lookup(id@),
{
    let mut k: usize = 0;
    while k < CATALOG_LEN
        invariant
            k <= CATALOG_LEN,
            lookup(id@) == lookup_from(id@, k as nat),
        decreases CATALOG_LEN - k,
    {
        let v = catalog_entry(k);
        if crate::text::same_chars(v.id, id) {
            return Some(v);
        }
        k = k + 1;
    }
    None
}

/// Every catalog id, in catalog order, diarization models included.
pub fn all_ids() -> (r: Vec<&'static str>)
    ensures
        r.len() == CATALOG_LEN,
        forall|k: int| 0 <= k < CATALOG_LEN ==> r[k] == (#[trigger] catalog()[k]).id,
{
    let mut out: Vec<&'static str> = Vec::new();
    let mut k: usize = 0;
    while k < CATALOG_LEN
        invariant
            k <= CATALOG_LEN,
            out.len() == k,
            forall|j: int| 0 <= j < k ==> out[j] == (#[trigger] catalog()[j]).id,
        decreases CATALOG_LEN - k,
    {
        out.push(catalog_entry(k).id);
        k = k + 1;
    }
    out
}

/// The mirror address of a catalog file.
pub fn mirror_url(variant_id: &str, file_name: &str) -> (r: String)
    ensures
        r@ == MIRROR_BASE@ + "/"@ + variant_id@ + "-"@ + file_name@,
{
    let mut s = MIRROR_BASE.to_owned();
    s.append("/");
    s.append(variant_id);
    s.append("-");
    s.append(file_name);
    s
}

/// The primary download address of a catalog file.
pub fn primary_url(variant: ModelVariant, file: ModelFile) -> (r: String)
    ensures
        r@ == variant.base_url@ + "/"@ + file.name@ + "?download=true"@,
{
    let mut s = variant.base_url.to_owned();
    s.append("/");
    s.append(file.name);
    s.append("?download=true");
    s
}

/// Where a download is staged until every byte is in: the file name plus `.part`.
pub fn part_name(name: &str) -> (r: String)
    ensures
        r@ == name@ + ".part"@,
{
    let mut s = name.to_owned();
    s.append(".part");
    s
}

/// `part` under `base`: `base`, a `/` unless `base` is empty or already ends
/// in one, then `part`.
pub open spec fn joined(base: Seq<char>, part: Seq<char>) -> Seq<char> {
    if base.len() == 0 {
        part
    } else if base.last() == '/' {
        base + part
    } else {
        base + "/"@ + part
    }
}

/// The path of `part` under `base`.
pub fn join_path(base: &str, part: &str) -> (r: String)
    ensures
        r@ == joined(base@, part@),
{
    let b = crate::text::chars_of(base);
    if b.len() == 0 {
        return part.to_owned();
    }
    let mut s = base.to_owned();
    if b[b.len() - 1] != '/' {
        s.append("/");
    }
    s.append(part);
    s
}

/// The size checks of one catalog file on disk: the length of the file at
/// its real name and of its `.part`, each `None` when there is no such file.
#[derive(Clone, Copy)]
pub struct FileProbe {
    pub len: Option<u64>,
    pub part_len: Option<u64>,
}

/// The file is there at its catalog size.
pub open spec fn file_complete(f: ModelFile, p: FileProbe) -> bool {
    p.len == Some(f.size)
}

/// Some bytes of the file are there, at its name or staged.
pub open spec fn file_present(p: FileProbe) -> bool {
    p.len is Some || p.part_len is Some
}

/// How much of a model with these files is on disk, given a probe per file.
pub open spec fn state_of(files: Seq<ModelFile>, probes: Seq<FileProbe>) -> ModelState {
    if forall|k: int| 0 <= k < files.len() ==> #[trigger] file_complete(files[k], probes[k]) {
        ModelState::Complete
    } else if exists|k: int| 0 <= k < files.len() && #[trigger] file_present(probes[k]) {
        ModelState::Partial
    } else {
        ModelState::Missing
    }
}

/// Bytes the probed files and their staged parts take up.
pub open spec fn stray_of(probes: Seq<FileProbe>) -> nat
    decreases probes.len(),
{
    if probes.len() == 0 {
        0
    } else {
        stray_of(probes.drop_last()) + match probes.last().len {
            Some(n) => n as nat,
            None => 0,
        } + match probes.last().part_len {
            Some(n) => n as nat,
            None => 0,
        }
    }
}

/// The probes fit the model `id`: one per file, or any when `id` is unknown.
pub open spec fn probes_fit(id: Seq<char>, probes: Seq<FileProbe>) -> bool {
    match lookup(id) {
        Some(v) => probes.len() == v.files@.len(),
        None => true,
    }
}

/// Where models are kept on disk, and what the app can tell about them.
pub struct ModelManager {
    pub models_dir: String,
}

impl ModelManager {
    /// A manager for the models under `models_dir`.
    pub fn new(models_dir: String) -> (m: ModelManager)
        ensures
            m.models_dir == models_dir,
    {
        ModelManager { models_dir }
    }

    /// The engine a catalog entry is for.
    pub fn get_engine_kind(&self, id: &str) -> (r: Option<EngineKind>)
        ensures
            r == match lookup(id@) {
                Some(v) => Some(v.engine),
                None => None::<EngineKind>,
            },
    {
        match find_variant(id) {
            Some(v) => Some(v.engine),
            None => None,
        }
    }

    /// The path of a model's first file, which is the whole model for Whisper.
    pub fn variant_file_path(&self, id: &str) -> (r: Option<String>)
        ensures
            match r {
                Some(p) => lookup(id@) matches Some(v) && v.files@.len() > 0 && p@ == joined(
                    joined(self.models_dir@, v.dest_subdir@),
                    v.files@[0].name@,
                ),
                None => lookup(id@) matches None || lookup(id@)->0.files@.len() == 0,
            },
    {
        let v = find_variant(id)?;
        if v.files.len() == 0 {
            return None;
        }
        let dir = join_path(self.models_dir.as_str(), v.dest_subdir);
        Some(join_path(dir.as_str(), v.files[0].name))
    }

    /// The directory a model's files go in, which is the whole model for Parakeet.
    pub fn variant_dir(&self, id: &str) -> (r: Option<String>)
        ensures
            match r {
                Some(p) => lookup(id@) matches Some(v) && p@ == joined(self.models_dir@, v.dest_subdir@),
                None => lookup(id@) is None,
            },
    {
        let v = find_variant(id)?;
        Some(join_path(self.models_dir.as_str(), v.dest_subdir))
    }

    /// The paths to check for each file of `id`: the file, then its staged `.part`.
    pub fn probe_paths(&self, id: &str) -> (r: Vec<(String, String)>)
        ensures
            match lookup(id@) {
                Some(v) => r.len() == v.files@.len() && forall|k: int|
                    0 <= k < r.len() ==> (#[trigger] r@[k]).0@ == joined(
                        joined(self.models_dir@, v.dest_subdir@),
                        v.files@[k].name@,
                    ) && r@[k].1@ == joined(
                        joined(self.models_dir@, v.dest_subdir@),
                        v.files@[k].name@ + ".part"@,
                    ),
                None => r.len() == 0,
            },
    {
        let mut out: Vec<(String, String)> = Vec::new();
        let v = match find_variant(id) {
            Some(v) => v,
            None => return out,
        };
        let dir = join_path(self.models_dir.as_str(), v.dest_subdir);
        let mut k: usize = 0;
        while k < v.files.len()
            invariant
                k <= v.files@.len(),
                lookup(id@) == Some(v),
                dir@ == joined(self.models_dir@, v.dest_subdir@),
                out.len() == k,
                forall|j: int|
                    0 <= j < k ==> (#[trigger] out@[j]).0@ == joined(dir@, v.files@[j].name@)
                        && out@[j].1@ == joined(dir@, v.files@[j].name@ + ".part"@),
            decreases v.files@.len() - k,
        {
            let f = v.files[k];
            let part = part_name(f.name);
            out.push((join_path(dir.as_str(), f.name), join_path(dir.as_str(), part.as_str())));
            k = k + 1;
        }
        out
    }

    /// How much of model `id` is on disk, from one probe per file.
    /// `Complete`: every file at its catalog size. `Partial`: bytes on disk
    /// that don't add up. `Missing`: nothing there, or an unknown id.
    pub fn state(&self, id: &str, probes: &Vec<FileProbe>) -> (r: ModelState)
        requires
            probes_fit(id@, probes@),
        ensures
            r == match lookup(id@) {
                Some(v) => state_of(v.files@, probes@),
                None => ModelState::Missing,
            },
    {
        let v = match find_variant(id) {
            Some(v) => v,
            None => return ModelState::Missing,
        };
        let mut present: usize = 0;
        let mut correct: usize = 0;
        let mut k: usize = 0;
        while k < v.files.len()
            invariant
                k <= v.files@.len() == probes.len(),
                correct <= k,
                present <= k,
                correct == k <==> forall|j: int| 0 <= j < k ==> #[trigger] file_complete(v.files@[j], probes@[j]),
                present > 0 <==> exists|j: int| 0 <= j < k && #[trigger] file_present(probes@[j]),
            decreases v.files@.len() - k,
        {
            let f = v.files[k];
            let p = probes[k];
            match p.len {
                Some(len) => {
                    present = present + 1;
                    if len == f.size {
                        correct = correct + 1;
                    }
                },
                None => {
                    if p.part_len.is_some() {
                        present = present + 1;
                    }
                },
            }
            proof {
                if correct == k + 1 {
                    assert forall|j: int| 0 <= j < k + 1 implies #[trigger] file_complete(v.files@[j], probes@[j]) by {
                        if j == k {
                        } else {
                        }
                    }
                }
                if !(p.len == Some(f.size)) {
                    assert(!file_complete(v.files@[k as int], probes@[k as int]));
                }
                if file_present(p) {
                    assert(file_present(probes@[k as int]));
                }
            }
            k = k + 1;
        }
        if correct == v.files.len() {
            ModelState::Complete
        } else if present > 0 {
            ModelState::Partial
        } else {
            ModelState::Missing
        }
    }

    /// Whether model `id` is on disk in full.
    pub fn is_downloaded(&self, id: &str, probes: &Vec<FileProbe>) -> (r: bool)
        requires
            probes_fit(id@, probes@),
        ensures
            r == match lookup(id@) {
                Some(v) => forall|k: int| 0 <= k < v.files@.len() ==> #[trigger] file_complete(v.files@[k], probes@[k]),
                None => false,
            },
    {
        let v = match find_variant(id) {
            Some(v) => v,
            None => return false,
        };
        let mut k: usize = 0;
        while k < v.files.len()
            invariant
                k <= v.files@.len() == probes.len(),
                lookup(id@) == Some(v),
                forall|j: int| 0 <= j < k ==> #[trigger] file_complete(v.files@[j], probes@[j]),
            decreases v.files@.len() - k,
        {
            if probes[k].len != Some(v.files[k].size) {
                assert(!file_complete(v.files@[k as int], probes@[k as int]));
                return false;
            }
            k = k + 1;
        }
        true
    }

    /// Bytes a model's files and staged parts take up, so the UI can say
    /// what deleting a `Partial` model reclaims. Zero for an unknown id.
    pub fn stray_bytes(&self, id: &str, probes: &Vec<FileProbe>) -> (r: u64)
        requires
            probes_fit(id@, probes@),
            stray_of(probes@) <= u64::MAX,
        ensures
            r == match lookup(id@) {
                Some(v) => stray_of(probes@),
                None => 0,
            },
    {
        if find_variant(id).is_none() {
            return 0;
        }
        let mut total: u64 = 0;
        let mut k: usize = 0;
        assert(probes@.take(0) =~= Seq::<FileProbe>::empty());
        while k < probes.len()
            invariant
                k <= probes.len(),
                total == stray_of(probes@.take(k as int)),
                stray_of(probes@) <= u64::MAX,
            decreases probes.len() - k,
        {
            proof {
                assert(probes@.take(k + 1).drop_last() =~= probes@.take(k as int));
                lemma_stray_prefix(probes@, k + 1);
            }
            let p = probes[k];
            if let Some(n) = p.len {
                total = total + n;
            }
            if let Some(n) = p.part_len {
                total = total + n;
            }
            k = k + 1;
        }
        assert(probes@.take(probes.len() as int) =~= probes@);
        total
    }
}

/// Catalog entry `k` is a speech engine whose files are all on disk in full.
pub open spec fn entry_ready(k: int, probes: Seq<FileProbe>) -> bool {
    &&& catalog()[k].engine != EngineKind::Diarization
    &&& forall|j: int|
        0 <= j < catalog()[k].files@.len() ==> #[trigger] file_complete(catalog()[k].files@[j], probes[j])
}

/// The ids, in catalog order, of the first `n` entries that are ready.
pub open spec fn ready_ids(disk: Seq<Seq<FileProbe>>, n: int) -> Seq<&'static str>
    decreases n,
{
    if n <= 0 {
        Seq::<&'static str>::empty()
    } else if entry_ready(n - 1, disk[n - 1]) {
        ready_ids(disk, n - 1).push(catalog()[n - 1].id)
    } else {
        ready_ids(disk, n - 1)
    }
}

/// The probes of every catalog entry, one per file.
pub open spec fn disk_fits(disk: Seq<Seq<FileProbe>>) -> bool {
    &&& disk.len() == CATALOG_LEN
    &&& forall|k: int| 0 <= k < CATALOG_LEN ==> (#[trigger] disk[k]).len() == catalog()[k].files@.len()
}

/// The views of per-entry probe lists.
pub open spec fn disk_view(disk: Seq<Vec<FileProbe>>) -> Seq<Seq<FileProbe>> {
    disk.map_values(|p: Vec<FileProbe>| p@)
}

impl ModelManager {
    /// The speech engines on disk in full, in catalog order (what the tray
    /// offers to switch to). `disk[k]` probes the files of catalog entry `k`.
    pub fn downloaded_ids(&self, disk: &Vec<Vec<FileProbe>>) -> (r: Vec<&'static str>)
        requires
            disk_fits(disk_view(disk@)),
        ensures
            r@ == ready_ids(disk_view(disk@), CATALOG_LEN as int),
    {
        let ghost dv = disk_view(disk@);
        let mut out: Vec<&'static str> = Vec::new();
        let mut k: usize = 0;
        while k < CATALOG_LEN
            invariant
                k <= CATALOG_LEN,
                dv == disk_view(disk@),
                disk_fits(dv),
                out@ == ready_ids(dv, k as int),
            decreases CATALOG_LEN - k,
        {
            let v = catalog_entry(k);
            let probes = &disk[k];
            assert(probes@ == dv[k as int]);
            let mut ok = v.engine != EngineKind::Diarization;
            let mut j: usize = 0;
            while j < v.files.len()
                invariant
                    j <= v.files@.len() == probes.len(),
                    v == catalog()[k as int],
                    ok == (v.engine != EngineKind::Diarization && forall|i: int|
                        0 <= i < j ==> #[trigger] file_complete(v.files@[i], probes@[i])),
                decreases v.files@.len() - j,
            {
                if probes[j].len != Some(v.files[j].size) {
                    assert(!file_complete(v.files@[j as int], probes@[j as int]));
                    ok = false;
                }
                j = j + 1;
            }
            if ok {
                out.push(v.id);
            }
            k = k + 1;
        }
        out
    }
}

/// The files of a model a download still has to fetch, by position: those
/// not on disk at their catalog size.
pub fn files_to_fetch(variant: ModelVariant, probes: &Vec<FileProbe>) -> (r: Vec<usize>)
    requires
        probes.len() == variant.files@.len(),
    ensures
        forall|k: int| 0 <= k < r.len() ==> (#[trigger] r@[k]) < variant.files@.len() && !file_complete(
            variant.files@[r@[k] as int],
            probes@[r@[k] as int],
        ),
        forall|j: int|
            0 <= j < variant.files@.len() && !file_complete(variant.files@[j], probes@[j]) ==> r@.contains(
                j as usize,
            ),
        forall|a: int, b: int| 0 <= a < b < r.len() ==> r@[a] < r@[b],
{
    let mut out: Vec<usize> = Vec::new();
    let mut k: usize = 0;
    while k < variant.files.len()
        invariant
            k <= variant.files@.len() == probes.len(),
            forall|i: int| 0 <= i < out.len() ==> (#[trigger] out@[i]) < k && !file_complete(
                variant.files@[out@[i] as int],
                probes@[out@[i] as int],
            ),
            forall|j: int|
                0 <= j < k && !file_complete(variant.files@[j], probes@[j]) ==> out@.contains(j as usize),
            forall|a: int, b: int| 0 <= a < b < out.len() ==> out@[a] < out@[b],
        decreases variant.files@.len() - k,
    {
        if probes[k].len != Some(variant.files[k].size) {
            let ghost before = out@;
            out.push(k);
            assert forall|j: int|
                0 <= j < k + 1 && !file_complete(variant.files@[j], probes@[j]) implies out@.contains(j as usize) by {
                if j < k {
                    let i = choose|i: int| 0 <= i < before.len() && before[i] == j as usize;
                    assert(out@[i] == j as usize);
                } else {
                    assert(out@[out.len() - 1] == k);
                }
            }
        }
        k = k + 1;
    }
    out
}

/// Where a download of `file` picks up: after the bytes already staged in
/// its `.part` when they are fewer than the whole file, else at the start.
pub fn resume_offset(file: ModelFile, probe: FileProbe) -> (r: u64)
    ensures
        r == match probe.part_len {
            Some(n) => if n < file.size {
                n
            } else {
                0
            },
            None => 0,
        },
{
    match probe.part_len {
        Some(n) => if n < file.size {
            n
        } else {
            0
        },
        None => 0,
    }
}

/// The `Range` header that asks for the rest of a file from `offset`; none
/// when the download starts at the beginning.
pub fn range_header(offset: u64) -> (r: Option<String>)
    ensures
        offset == 0 ==> r is None,
        offset > 0 ==> (r matches Some(h) && h@ == "bytes="@ + crate::text::decimal(offset as nat) + "-"@),
{
    if offset == 0 {
        return None;
    }
    let mut h = "bytes=".to_owned();
    crate::text::push_decimal(&mut h, offset);
    h.append("-");
    Some(h)
}

/// Whether the response continues the staged bytes: only a `206 Partial
/// Content` answer to a request from `offset` > 0 does; any other answer
/// carries the whole file, which starts the `.part` over.
pub fn continues_part(offset: u64, status: u16) -> (r: bool)
    ensures
        r == (offset > 0 && status == 206),
{
    offset > 0 && status == 206
}

/// How a staged file compares with its catalog size once its stream ends.
#[derive(PartialEq, Eq, Structural)]
pub enum StagedFate {
    /// Shorter: kept, so the next attempt resumes after it.
    Resume,
    /// Longer: it can never become the file; thrown away.
    Discard,
    /// The catalog size: checked against the digest next.
    Verify,
}

/// What becomes of a staged file of `got` bytes.
pub fn staged_fate(file: ModelFile, got: u64) -> (r: StagedFate)
    ensures
        got < file.size ==> r == StagedFate::Resume,
        got > file.size ==> r == StagedFate::Discard,
        got == file.size ==> r == StagedFate::Verify,
{
    if got < file.size {
        StagedFate::Resume
    } else if got > file.size {
        StagedFate::Discard
    } else {
        StagedFate::Verify
    }
}

/// Whether the catalog lists a digest for `file`, so a finished download
/// must be hashed.
pub fn needs_digest(file: ModelFile) -> (r: bool)
    ensures
        r == file.sha256 is Some,
{
    file.sha256.is_some()
}

/// A file's digest agrees with the catalog: equal to the listed one, or
/// none is listed.
pub open spec fn digest_ok(file: ModelFile, digest_hex: Option<Seq<char>>) -> bool {
    match file.sha256 {
        Some(h) => digest_hex == Some(h@),
        None => true,
    }
}

/// A staged file at its catalog size earns its name only when its SHA-256
/// digest (`digest_hex`, computed when the catalog lists one) matches the
/// catalog's.
pub fn check_digest(name: &str, file: ModelFile, digest_hex: Option<&str>) -> (r: Result<(), String>)
    ensures
        digest_ok(file, match digest_hex {
            Some(d) => Some(d@),
            None => None,
        }) ==> r is Ok,
        !digest_ok(file, match digest_hex {
            Some(d) => Some(d@),
            None => None,
        }) ==> (r matches Err(e) && e@ == name@ + " failed its SHA-256 check"@),
{
    match file.sha256 {
        None => Ok(()),
        Some(h) => {
            let ok = match digest_hex {
                Some(d) => crate::text::same_chars(d, h),
                None => false,
            };
            if ok {
                Ok(())
            } else {
                let mut e = name.to_owned();
                e.append(" failed its SHA-256 check");
                Err(e)
            }
        },
    }
}

/// The error for an id the catalog doesn't have.
pub fn unknown_model_error(id: &str) -> (r: String)
    ensures
        r@ == "Unknown model: "@ + id@,
{
    let mut s = "Unknown model: ".to_owned();
    s.append(id);
    s
}

/// Where a catalog file is fetched from, in the order tried: the primary
/// host, then the mirror.
pub fn download_sources(variant: ModelVariant, file: ModelFile) -> (r: Vec<String>)
    ensures
        r.len() == 2,
        r@[0]@ == variant.base_url@ + "/"@ + file.name@ + "?download=true"@,
        r@[1]@ == MIRROR_BASE@ + "/"@ + variant.id@ + "-"@ + file.name@,
{
    let mut out: Vec<String> = Vec::new();
    out.push(primary_url(variant, file));
    out.push(mirror_url(variant.id, file.name));
    out
}

/// A finished download earns its real name only at its catalog size; a
/// short or long body is rejected.
pub fn check_download_size(name: &str, got: u64, expected: u64) -> (r: Result<(), String>)
    ensures
        got == expected ==> r is Ok,
        got != expected ==> (r matches Err(e) && e@ == name@ + " is "@ + crate::text::decimal(
            got as nat,
        ) + " bytes, expected "@ + crate::text::decimal(expected as nat)),
{
    if got == expected {
        return Ok(());
    }
    let mut s = name.to_owned();
    s.append(" is ");
    crate::text::push_decimal(&mut s, got);
    s.append(" bytes, expected ");
    crate::text::push_decimal(&mut s, expected);
    Err(s)
}

/// The error once every source of a file has failed, with the last failure's reason.
pub fn download_failed_error(name: &str, last_error: Option<&str>) -> (r: String)
    ensures
        r@ == "Failed to download "@ + name@ + " from all sources: "@ + match last_error {
            Some(e) => e@,
            None => Seq::<char>::empty(),
        },
{
    let mut s = "Failed to download ".to_owned();
    s.append(name);
    s.append(" from all sources: ");
    match last_error {
        Some(e) => s.append(e),
        None => {},
    }
    s
}

proof fn lemma_stray_prefix(ps: Seq<FileProbe>, i: int)
    requires
        0 <= i <= ps.len(),
    ensures
        stray_of(ps.take(i)) <= stray_of(ps),
    decreases ps.len() - i,
{
    if i < ps.len() {
        lemma_stray_prefix(ps, i + 1);
        assert(ps.take(i + 1).drop_last() =~= ps.take(i));
    } else {
        assert(ps.take(i) =~= ps);
    }
}

proof fn lemma_lookup_from_finds(id: Seq<char>, from: nat, k: int)
    requires
        from <= k < CATALOG_LEN,
        catalog()[k].id@ == id,
    ensures
        lookup_from(id, from) matches Some(v) && v.id@ == id,
    decreases CATALOG_LEN - from,
{
    if catalog()[from as int].id@ != id {
        lemma_lookup_from_finds(id, from + 1, k);
    }
}

/// Every id the catalog lists is one `find_variant` finds.
pub proof fn law_catalog_ids_are_found(k: int)
    requires
        0 <= k < CATALOG_LEN,
    ensures
        lookup(catalog()[k].id@) matches Some(v) && v.id@ == catalog()[k].id@,
{
    lemma_lookup_from_finds(catalog()[k].id@, 0, k);
}

/// A model counts as downloaded exactly when its state is `Complete`.
pub proof fn law_complete_iff_downloaded(files: Seq<ModelFile>, probes: Seq<FileProbe>)
    ensures
        (state_of(files, probes) == ModelState::Complete) == (forall|k: int|
            0 <= k < files.len() ==> #[trigger] file_complete(files[k], probes[k])),
{
}

/// A file on disk at the wrong size (a truncated download) makes the model
/// `Partial`, never `Missing`.
pub proof fn law_truncated_file_is_partial(files: Seq<ModelFile>, probes: Seq<FileProbe>, k: int)
    requires
        0 <= k < files.len(),
        probes[k].len matches Some(n) && n != files[k].size,
    ensures
        state_of(files, probes) == ModelState::Partial,
{
    assert(!file_complete(files[k], probes[k]));
    assert(file_present(probes[k]));
}

/// A staged `.part` with nothing at the real name is an interrupted
/// download: `Partial`.
pub proof fn law_staged_part_is_partial(files: Seq<ModelFile>, probes: Seq<FileProbe>, k: int)
    requires
        0 <= k < files.len(),
        probes[k].len is None,
        probes[k].part_len is Some,
    ensures
        state_of(files, probes) == ModelState::Partial,
{
    assert(!file_complete(files[k], probes[k]));
    assert(file_present(probes[k]));
}

/// A model with any file short of its catalog size is not `Complete`,
/// however many of its other files have landed.
pub proof fn law_incomplete_until_every_file_lands(files: Seq<ModelFile>, probes: Seq<FileProbe>, k: int)
    requires
        0 <= k < files.len(),
        probes[k].len != Some(files[k].size),
    ensures
        state_of(files, probes) != ModelState::Complete,
{
    assert(!file_complete(files[k], probes[k]));
}

/// Nothing on disk, at a file's name or staged, is `Missing` (for a model
/// that has files).
pub proof fn law_nothing_on_disk_is_missing(files: Seq<ModelFile>, probes: Seq<FileProbe>)
    requires
        files.len() > 0,
        forall|k: int| 0 <= k < files.len() ==> (#[trigger] probes[k]).len is None && probes[k].part_len is None,
    ensures
        state_of(files, probes) == ModelState::Missing,
{
    assert(probes[0].len is None);
    assert(!file_complete(files[0], probes[0]));
}


proof fn lemma_catalog_ids_distinct()
    ensures
        forall|i: int, j: int|
            0 <= i < j < CATALOG_LEN ==> #[trigger] catalog()[i].id@ != #[trigger] catalog()[j].id@,
{
    reveal_strlit("whisper-tiny");
    reveal_strlit("whisper-base");
    reveal_strlit("whisper-small");
    reveal_strlit("whisper-tiny-multi");
    reveal_strlit("whisper-base-multi");
    reveal_strlit("whisper-small-multi");
    reveal_strlit("whisper-medium-multi");
    reveal_strlit("whisper-large-v3-turbo");
    reveal_strlit("parakeet-v2");
    reveal_strlit("diar-segmentation");
    reveal_strlit("diar-embedding");
    reveal_strlit("parakeet-v3");
    assert forall|i: int, j: int| 0 <= i < j < CATALOG_LEN implies #[trigger] catalog()[i].id@
        != #[trigger] catalog()[j].id@ by {
        let a = catalog()[i].id@;
        let b = catalog()[j].id@;
        if a.len() == b.len() {
            assert(a[8] != b[8] || a[9] != b[9] || a[0] != b[0] || a[10] != b[10] || a[12] != b[12] || a[14] != b[14]);
        }
    }
}


proof fn lemma_lookup_from_in_catalog(id: Seq<char>, from: nat)
    ensures
        lookup_from(id, from) matches Some(v) ==> exists|k: int|
            from <= k < CATALOG_LEN && catalog()[k] == v && #[trigger] catalog()[k].id@ == id,
    decreases CATALOG_LEN - from,
{
    if from < CATALOG_LEN && catalog()[from as int].id@ != id {
        lemma_lookup_from_in_catalog(id, from + 1);
    }
}

proof fn lemma_en_suffix(a: Seq<char>, b: Seq<char>)
    requires
        b.len() >= 7,
    ensures
        english_only_path(a + b) == english_only_path(b),
{
    let c = a + b;
    let n = c.len() as int;
    let m = b.len() as int;
    assert(forall|i: int| 1 <= i <= 7 ==> #[trigger] c[n - i] == b[m - i]);
}

/// Among the Whisper entries of the catalog, exactly the `.en` builds
/// (`whisper-tiny`, `whisper-base`, `whisper-small`) load as English-only
/// weights: the path `variant_file_path` gives for each of them ends in
/// `.en.bin`, and no other Whisper entry's does.
pub proof fn law_english_only_weights_are_the_en_builds(models_dir: Seq<char>, id: Seq<char>)
    requires
        lookup(id) matches Some(v) && v.engine == EngineKind::Whisper,
    ensures
        lookup(id)->0.files@.len() > 0,
        english_only_path(
            joined(joined(models_dir, lookup(id)->0.dest_subdir@), lookup(id)->0.files@[0].name@),
        ) == (id == "whisper-tiny"@ || id == "whisper-base"@ || id == "whisper-small"@),
{
    reveal_strlit("ggml-tiny.en.bin");
    reveal_strlit("ggml-base.en.bin");
    reveal_strlit("ggml-small.en.bin");
    reveal_strlit("ggml-tiny.bin");
    reveal_strlit("ggml-base.bin");
    reveal_strlit("ggml-small.bin");
    reveal_strlit("ggml-medium.bin");
    reveal_strlit("ggml-large-v3-turbo.bin");
    lemma_lookup_from_in_catalog(id, 0);
    lemma_catalog_ids_distinct();
    let v = lookup(id)->0;
    let k = choose|k: int| 0 <= k < CATALOG_LEN && catalog()[k] == v && #[trigger] catalog()[k].id@ == id;
    assert(k < 8);
    let dir = joined(models_dir, v.dest_subdir@);
    let name = v.files@[0].name@;
    assert(name.len() >= 7);
    if dir.len() == 0 {
        assert(joined(dir, name) == name);
    } else if dir.last() == '/' {
        lemma_en_suffix(dir, name);
    } else {
        lemma_en_suffix(dir + "/"@, name);
    }
    assert(catalog()[0].id@ == "whisper-tiny"@);
    assert(catalog()[1].id@ == "whisper-base"@);
    assert(catalog()[2].id@ == "whisper-small"@);
    if k >= 3 {
        assert(catalog()[0].id@ != catalog()[k].id@);
        assert(catalog()[1].id@ != catalog()[k].id@);
        assert(catalog()[2].id@ != catalog()[k].id@);
    }
}

/// The positions, in catalog order, of the first `n` entries that are ready.
pub open spec fn ready_positions(disk: Seq<Seq<FileProbe>>, n: int) -> Seq<int>
    decreases n,
{
    if n <= 0 {
        Seq::<int>::empty()
    } else if entry_ready(n - 1, disk[n - 1]) {
        ready_positions(disk, n - 1).push(n - 1)
    } else {
        ready_positions(disk, n - 1)
    }
}

proof fn lemma_ready_prefix(disk: Seq<Seq<FileProbe>>, n: int)
    requires
        0 <= n <= CATALOG_LEN,
    ensures
        ready_ids(disk, n).len() == ready_positions(disk, n).len(),
        forall|i: int|
            0 <= i < ready_positions(disk, n).len() ==> 0 <= #[trigger] ready_positions(disk, n)[i] < n
                && ready_ids(disk, n)[i] == catalog()[ready_positions(disk, n)[i]].id && entry_ready(
                ready_positions(disk, n)[i],
                disk[ready_positions(disk, n)[i]],
            ),
        forall|i: int, j: int|
            0 <= i < j < ready_positions(disk, n).len() ==> #[trigger] ready_positions(disk, n)[i]
                < #[trigger] ready_positions(disk, n)[j],
        forall|k: int| 0 <= k < n && #[trigger] entry_ready(k, disk[k]) ==> ready_positions(disk, n).contains(k),
    decreases n,
{
    if n > 0 {
        lemma_ready_prefix(disk, n - 1);
        let p = ready_positions(disk, n - 1);
        if entry_ready(n - 1, disk[n - 1]) {
            let q = p.push(n - 1);
            assert forall|k: int| 0 <= k < n - 1 && p.contains(k) implies q.contains(k) by {
                let i = choose|i: int| 0 <= i < p.len() && p[i] == k;
                assert(q[i] == k);
            }
            assert(q[q.len() - 1] == n - 1);
        }
    }
}

proof fn lemma_lookup_from_own(k: int, from: nat)
    requires
        from <= k < CATALOG_LEN,
        forall|i: int, j: int|
            0 <= i < j < CATALOG_LEN ==> #[trigger] catalog()[i].id@ != #[trigger] catalog()[j].id@,
    ensures
        lookup_from(catalog()[k].id@, from) == Some(catalog()[k]),
    decreases CATALOG_LEN - from,
{
    if from < k {
        assert(catalog()[from as int].id@ != catalog()[k].id@);
        lemma_lookup_from_own(k, from + 1);
    }
}

/// The speech engines offered for switching are exactly the ready catalog
/// entries, in catalog order and each once: every listed id belongs to an
/// entry that is no diarization model and has every file at its catalog
/// size, and `find_variant` resolves it back to that entry; every such
/// entry is listed; the entries come in catalog order, so no id appears
/// twice.
pub proof fn law_downloaded_ids_are_the_ready_catalog_entries(disk: Seq<Seq<FileProbe>>)
    ensures
        ({
            let ids = ready_ids(disk, CATALOG_LEN as int);
            let pos = ready_positions(disk, CATALOG_LEN as int);
            &&& ids.len() == pos.len()
            &&& forall|i: int|
                0 <= i < pos.len() ==> 0 <= #[trigger] pos[i] < CATALOG_LEN && ids[i] == catalog()[pos[i]].id
                    && catalog()[pos[i]].engine != EngineKind::Diarization && entry_ready(pos[i], disk[pos[i]])
                    && lookup(ids[i]@) == Some(catalog()[pos[i]])
            &&& forall|i: int, j: int| 0 <= i < j < pos.len() ==> #[trigger] pos[i] < #[trigger] pos[j]
            &&& forall|k: int| 0 <= k < CATALOG_LEN && #[trigger] entry_ready(k, disk[k]) ==> pos.contains(k)
            &&& forall|i: int, j: int| 0 <= i < j < ids.len() ==> #[trigger] ids[i]@ != #[trigger] ids[j]@
        }),
{
    let n = CATALOG_LEN as int;
    lemma_ready_prefix(disk, n);
    lemma_catalog_ids_distinct();
    let ids = ready_ids(disk, n);
    let pos = ready_positions(disk, n);
    assert forall|i: int| 0 <= i < pos.len() implies lookup(ids[i]@) == Some(catalog()[pos[i]]) by {
        lemma_lookup_from_own(pos[i], 0);
    }
    assert forall|i: int, j: int| 0 <= i < j < ids.len() implies #[trigger] ids[i]@ != #[trigger] ids[j]@ by {
        assert(pos[i] < pos[j]);
        assert(catalog()[pos[i]].id@ != catalog()[pos[j]].id@);
    }
}

} // verus!
