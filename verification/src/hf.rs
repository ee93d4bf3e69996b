//! Downloads from the model hub: which files, in which order, and what a
//! failure means.

use vstd::prelude::*;

use crate::text;

verus! {

/// The state of a download, for whoever draws a progress bar.
#[derive(Debug, PartialEq, Eq)]
pub struct DownloadStatus {
    /// The file that is being transferred.
    pub file: String,
    /// Bytes of that file, done and in all.
    pub file_done: u64,
    pub file_total: u64,
    /// Files, done and in all.
    pub files_done: u32,
    pub files_total: u32,
}

impl DownloadStatus {
    /// A download that has not begun.
    pub fn new() -> (s: Self)
        ensures
            s.file@ == Seq::<char>::empty(),
            s.file_done == 0 && s.file_total == 0 && s.files_done == 0 && s.files_total == 0,
    {
        DownloadStatus {
            file: String::new(),
            file_done: 0,
            file_total: 0,
            files_done: 0,
            files_total: 0,
        }
    }

    /// Bytes done, bytes in all, files done, files in all, current file.
    pub fn snapshot(&self) -> (r: (u64, u64, u32, u32, String))
        ensures
            r.0 == self.file_done,
            r.1 == self.file_total,
            r.2 == self.files_done,
            r.3 == self.files_total,
            r.4@ == self.file@,
    {
        (self.file_done, self.file_total, self.files_done, self.files_total, self.file.clone())
    }

    /// A file of `size` bytes begins.
    pub fn init(&mut self, size: u64, filename: &str)
        ensures
            final(self).file@ == filename@,
            final(self).file_total == size,
            final(self).file_done == 0,
            final(self).files_done == old(self).files_done,
            final(self).files_total == old(self).files_total,
    {
        self.file = filename.to_owned();
        self.file_total = size;
        self.file_done = 0;
    }

    /// `size` more bytes arrived. The counter wraps around.
    pub fn update(&mut self, size: u64)
        ensures
            final(self).file_done == (old(self).file_done + size) % 0x1_0000_0000_0000_0000,
            final(self).file == old(self).file,
            final(self).file_total == old(self).file_total,
            final(self).files_done == old(self).files_done,
            final(self).files_total == old(self).files_total,
    {
        self.file_done = self.file_done.wrapping_add(size);
    }

    /// A file is complete. The counter wraps around.
    pub fn finish(&mut self)
        ensures
            final(self).files_done == (old(self).files_done + 1) % 0x1_0000_0000,
            final(self).file == old(self).file,
            final(self).file_done == old(self).file_done,
            final(self).file_total == old(self).file_total,
            final(self).files_total == old(self).files_total,
    {
        self.files_done = self.files_done.wrapping_add(1);
    }
}

/// The format of the principal weights file.
#[derive(Clone, Copy, Debug, PartialEq, Eq, Structural)]
pub enum ArtifactKind {
    Safetensors,
    Gguf,
    Onnx,
}

/// A downloaded file: its directory, where its path has one, and its name.
#[derive(Debug, PartialEq, Eq)]
pub struct LocalFile {
    pub dir: Option<String>,
    pub name: String,
}

/// The files of a downloaded model.
#[derive(Debug, PartialEq, Eq)]
pub struct DownloadedModel {
    /// The principal weights file.
    pub artifact: LocalFile,
    pub kind: ArtifactKind,
    /// Everything else that was fetched: shards, external data, metadata.
    pub siblings: Vec<LocalFile>,
}

/// An optional string as text.
pub open spec fn optional_text(s: Option<String>) -> Option<Seq<char>> {
    match s {
        Some(t) => Some(t@),
        None => None,
    }
}

impl DownloadedModel {
    /// The directory of the artifact, which all files share.
    pub fn snapshot_dir(&self) -> (dir: Option<&str>)
        ensures
            match optional_text(self.artifact.dir) {
                Some(d) => dir matches Some(s) && s@ == d,
                None => dir is None,
            },
    {
        match &self.artifact.dir {
            Some(d) => Some(d.as_str()),
            None => None,
        }
    }
}

/// The listing as text.
pub open spec fn listing(files: Seq<String>) -> Seq<Seq<char>> {
    files.map_values(|f: String| f@)
}

/// The first file at or after `from` that ends with the suffix.
pub open spec fn first_ending(files: Seq<Seq<char>>, suffix: Seq<char>, from: int) -> Option<int>
    decreases files.len() - from,
{
    if from < 0 || from >= files.len() {
        None
    } else if text::ends(files[from], suffix) {
        Some(from)
    } else {
        first_ending(files, suffix, from + 1)
    }
}

/// The principal weights file of a repository: a single safetensors file, the
/// index of a sharded one, the first GGUF file, or the first ONNX file.
pub open spec fn artifact_of(files: Seq<Seq<char>>) -> Option<(Seq<char>, ArtifactKind)> {
    if files.contains("model.safetensors"@) {
        Some(("model.safetensors"@, ArtifactKind::Safetensors))
    } else if files.contains("model.safetensors.index.json"@) {
        Some(("model.safetensors.index.json"@, ArtifactKind::Safetensors))
    } else {
        match first_ending(files, ".gguf"@, 0) {
            Some(i) => Some((files[i], ArtifactKind::Gguf)),
            None => match first_ending(files, ".onnx"@, 0) {
                Some(i) => Some((files[i], ArtifactKind::Onnx)),
                None => None,
            },
        }
    }
}

fn lists(files: &Vec<String>, name: &str) -> (b: bool)
    ensures
        b == listing(files@).contains(name@),
{
    let mut i: usize = 0;
    while i < files.len()
        invariant
            i <= files@.len(),
            forall|j: int| 0 <= j < i ==> listing(files@)[j] != name@,
        decreases files@.len() - i,
    {
        assert(listing(files@)[i as int] == files@[i as int]@);
        if text::text_eq(files[i].as_str(), name) {
            return true;
        }
        i = i + 1;
    }
    false
}

fn find_ending(files: &Vec<String>, suffix: &str) -> (r: Option<usize>)
    ensures
        match first_ending(listing(files@), suffix@, 0) {
            Some(i) => r matches Some(k) && k == i && i < files@.len(),
            None => r is None,
        },
{
    let mut i: usize = 0;
    while i < files.len()
        invariant
            i <= files@.len(),
            first_ending(listing(files@), suffix@, 0) == first_ending(
                listing(files@),
                suffix@,
                i as int,
            ),
        decreases files@.len() - i,
    {
        assert(listing(files@)[i as int] == files@[i as int]@);
        if text::ends_with(files[i].as_str(), suffix) {
            return Some(i);
        }
        i = i + 1;
    }
    None
}

/// The principal weights file of a repository.
pub fn pick_artifact(filenames: &Vec<String>) -> (r: Option<(String, ArtifactKind)>)
    ensures
        match artifact_of(listing(filenames@)) {
            Some(a) => r matches Some(p) && p.0@ == a.0 && p.1 == a.1,
            None => r is None,
        },
{
    if lists(filenames, "model.safetensors") {
        return Some(("model.safetensors".to_owned(), ArtifactKind::Safetensors));
    }
    if lists(filenames, "model.safetensors.index.json") {
        return Some(("model.safetensors.index.json".to_owned(), ArtifactKind::Safetensors));
    }
    match find_ending(filenames, ".gguf") {
        Some(i) => {
            assert(listing(filenames@)[i as int] == filenames@[i as int]@);
            return Some((filenames[i].clone(), ArtifactKind::Gguf));
        },
        None => {},
    }
    match find_ending(filenames, ".onnx") {
        Some(i) => {
            assert(listing(filenames@)[i as int] == filenames@[i as int]@);
            Some((filenames[i].clone(), ArtifactKind::Onnx))
        },
        None => None,
    }
}

/// A file holds one shard of a sharded model.
pub open spec fn is_shard(name: Seq<char>) -> bool {
    text::ends(name, ".safetensors"@) && text::holds(name, "of"@)
}

/// The files that come with the artifact's own format.
pub open spec fn companions(files: Seq<Seq<char>>, artifact: Seq<char>) -> Seq<Seq<char>> {
    if text::ends(artifact, ".safetensors.index.json"@) {
        files.filter(|f: Seq<char>| is_shard(f))
    } else if text::ends(artifact, ".onnx"@) && files.contains(artifact + "_data"@) {
        seq![artifact + "_data"@]
    } else {
        Seq::empty()
    }
}

/// The metadata files that are fetched where a repository has them.
pub open spec fn metadata_names() -> Seq<Seq<char>> {
    seq![
        "config.json"@,
        "tokenizer.json"@,
        "tokenizer.model"@,
        "tokenizer_config.json"@,
        "special_tokens_map.json"@,
        "generation_config.json"@,
    ]
}

/// The first `n` metadata files, as far as the repository has them.
pub open spec fn metadata_in(files: Seq<Seq<char>>, n: int) -> Seq<Seq<char>>
    decreases n,
{
    if n <= 0 {
        Seq::empty()
    } else if files.contains(metadata_names()[n - 1]) {
        metadata_in(files, n - 1).push(metadata_names()[n - 1])
    } else {
        metadata_in(files, n - 1)
    }
}

/// All files to fetch: the artifact, its companions, then the metadata.
pub open spec fn planned(files: Seq<Seq<char>>, artifact: Seq<char>) -> Seq<Seq<char>> {
    seq![artifact] + companions(files, artifact) + metadata_in(files, 6)
}

/// What to fetch.
#[derive(Debug, PartialEq, Eq)]
pub struct DownloadPlan {
    pub kind: ArtifactKind,
    /// The artifact comes first.
    pub files: Vec<String>,
}

fn push_metadata(files: &Vec<String>, out: &mut Vec<String>, name: &str, n: Ghost<int>)
    requires
        1 <= n@ <= 6,
        name@ == metadata_names()[n@ - 1],
    ensures
        forall|base: Seq<Seq<char>>|
            listing(old(out)@) == #[trigger] (base + metadata_in(listing(files@), n@ - 1))
                ==> listing(final(out)@) == base + metadata_in(listing(files@), n@),
{
    let ghost before = out@;
    if lists(files, name) {
        out.push(name.to_owned());
        assert(listing(out@) =~= listing(before).push(name@));
    }
    assert forall|base: Seq<Seq<char>>|
        listing(before) == #[trigger] (base + metadata_in(listing(files@), n@ - 1)) implies listing(
        out@,
    ) == base + metadata_in(listing(files@), n@) by {
        assert(listing(out@) =~= base + metadata_in(listing(files@), n@));
    }
}

/// Plans the download of a repository with this listing; `None` where it has
/// no artifact that is known.
pub fn download_model(filenames: &Vec<String>) -> (r: Option<DownloadPlan>)
    ensures
        match artifact_of(listing(filenames@)) {
            Some(a) => r matches Some(p) && p.kind == a.1 && listing(p.files@) == planned(
                listing(filenames@),
                a.0,
            ),
            None => r is None,
        },
{
    let (artifact, kind) = match pick_artifact(filenames) {
        Some(p) => p,
        None => {
            return None;
        },
    };
    let ghost all = listing(filenames@);
    let mut files: Vec<String> = Vec::new();
    files.push(artifact.clone());
    assert(listing(files@) =~= seq![artifact@]);
    if text::ends_with(artifact.as_str(), ".safetensors.index.json") {
        let ghost shard = |f: Seq<char>| is_shard(f);
        let mut i: usize = 0;
        proof {
            reveal(Seq::filter);
            assert(all.take(0) =~= Seq::<Seq<char>>::empty());
            assert(listing(files@) =~= seq![artifact@] + all.take(0).filter(shard));
        }
        while i < filenames.len()
            invariant
                i <= filenames@.len(),
                all == listing(filenames@),
                shard == (|f: Seq<char>| is_shard(f)),
                listing(files@) == seq![artifact@] + all.take(i as int).filter(shard),
            decreases filenames@.len() - i,
        {
            let name = filenames[i].as_str();
            let ghost before = files@;
            proof {
                reveal(Seq::filter);
                let next = all.take(i + 1);
                assert(next.drop_last() =~= all.take(i as int));
                assert(next.last() == name@);
            }
            if text::ends_with(name, ".safetensors") && text::contains_text(name, "of") {
                files.push(filenames[i].clone());
                assert(listing(files@) =~= listing(before).push(name@));
            }
            i = i + 1;
            assert(listing(files@) =~= seq![artifact@] + all.take(i as int).filter(shard));
        }
        assert(all.take(all.len() as int) =~= all);
    } else if text::ends_with(artifact.as_str(), ".onnx") {
        let data = text::concat(artifact.as_str(), "_data");
        if lists(filenames, data.as_str()) {
            let ghost before = files@;
            files.push(data);
            assert(listing(files@) =~= listing(before).push(data@));
        }
    }
    let ghost base = seq![artifact@] + companions(all, artifact@);
    proof {
        assert(listing(files@) =~= base);
        assert(base + metadata_in(all, 0) =~= base);
    }
    push_metadata(filenames, &mut files, "config.json", Ghost(1));
    assert(listing(files@) == base + metadata_in(all, 1));
    push_metadata(filenames, &mut files, "tokenizer.json", Ghost(2));
    assert(listing(files@) == base + metadata_in(all, 2));
    push_metadata(filenames, &mut files, "tokenizer.model", Ghost(3));
    assert(listing(files@) == base + metadata_in(all, 3));
    push_metadata(filenames, &mut files, "tokenizer_config.json", Ghost(4));
    assert(listing(files@) == base + metadata_in(all, 4));
    push_metadata(filenames, &mut files, "special_tokens_map.json", Ghost(5));
    assert(listing(files@) == base + metadata_in(all, 5));
    push_metadata(filenames, &mut files, "generation_config.json", Ghost(6));
    Some(DownloadPlan { kind, files })
}

/// Without this file the model cannot be loaded, so a failed download of it
/// fails the whole; other files are fetched as well as possible.
pub open spec fn is_essential(name: Seq<char>) -> bool {
    text::ends(name, ".safetensors"@) || text::ends(name, "_data"@)
}

/// Whether a failed download of this sibling fails the whole.
pub fn sibling_is_essential(name: &str) -> (b: bool)
    ensures
        b == is_essential(name@),
{
    text::ends_with(name, ".safetensors") || text::ends_with(name, "_data")
}

/// The artifact is one of the listed files.
pub proof fn artifact_is_listed(files: Seq<Seq<char>>)
    ensures
        artifact_of(files) matches Some(a) ==> files.contains(a.0),
{
    lemma_first_ending(files, ".gguf"@, 0);
    lemma_first_ending(files, ".onnx"@, 0);
}

proof fn lemma_first_ending(files: Seq<Seq<char>>, suffix: Seq<char>, from: int)
    requires
        0 <= from <= files.len(),
    ensures
        first_ending(files, suffix, from) matches Some(i) ==> from <= i < files.len(),
    decreases files.len() - from,
{
    if from < files.len() && !text::ends(files[from], suffix) {
        lemma_first_ending(files, suffix, from + 1);
    }
}

/// Only listed files are fetched.
pub proof fn planned_files_are_listed(files: Seq<Seq<char>>, i: int)
    requires
        artifact_of(files) is Some,
        0 <= i < planned(files, (artifact_of(files)->0).0).len(),
    ensures
        files.contains(planned(files, (artifact_of(files)->0).0)[i]),
{
    let artifact = (artifact_of(files)->0).0;
    artifact_is_listed(files);
    let extra = companions(files, artifact);
    let all = planned(files, artifact);
    if i == 0 {
    } else if i < 1 + extra.len() {
        assert(all[i] == extra[i - 1]);
        if text::ends(artifact, ".safetensors.index.json"@) {
            lemma_filtered(files, |f: Seq<char>| is_shard(f), i - 1);
        }
    } else {
        lemma_metadata(files, 6, i - 1 - extra.len());
    }
}

proof fn lemma_filtered(files: Seq<Seq<char>>, pred: spec_fn(Seq<char>) -> bool, i: int)
    requires
        0 <= i < files.filter(pred).len(),
    ensures
        files.contains(files.filter(pred)[i]),
    decreases files.len(),
{
    reveal(Seq::filter);
    if files.len() > 0 {
        let head = files.drop_last();
        if i < head.filter(pred).len() {
            lemma_filtered(head, pred, i);
            let k = choose|k: int| 0 <= k < head.len() && head[k] == head.filter(pred)[i];
            assert(files[k] == head.filter(pred)[i]);
        } else {
            assert(files[files.len() - 1] == files.last());
        }
    }
}

proof fn lemma_metadata(files: Seq<Seq<char>>, n: int, i: int)
    requires
        0 <= n <= 6,
        0 <= i < metadata_in(files, n).len(),
    ensures
        files.contains(metadata_in(files, n)[i]),
    decreases n,
{
    if n > 0 {
        if i < metadata_in(files, n - 1).len() {
            lemma_metadata(files, n - 1, i);
        }
    }
}

} // verus!
