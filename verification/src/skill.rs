//! Skills as they travel between a backend and the command line.
use vstd::prelude::*;

use crate::clock::Timestamp;
use crate::text;

verus! {

/// One file of a skill, by its skill-relative path.
#[derive(Debug)]
pub struct SkillFile {
    pub path: String,
    pub bytes: Vec<u8>,
}

/// What a file is: its path and its bytes.
pub struct FileView {
    pub path: Seq<char>,
    pub bytes: Seq<u8>,
}

impl View for SkillFile {
    type V = FileView;

    open spec fn view(&self) -> FileView {
        FileView { path: self.path@, bytes: self.bytes@ }
    }
}

/// What the files of a list are.
pub open spec fn files_of(files: Seq<SkillFile>) -> Seq<FileView> {
    files.map_values(|f: SkillFile| f@)
}

/// The paths of a list of files.
pub open spec fn paths_of(files: Seq<FileView>) -> Seq<Seq<char>> {
    files.map_values(|f: FileView| f.path)
}

/// What is known of a version of a skill besides its files.
#[derive(Debug)]
pub struct SkillManifest {
    pub slug: String,
    pub version: String,
    pub description: Option<String>,
    pub entry: String,
    pub assets: Vec<String>,
    pub created_at: Timestamp,
}

/// A version of a skill with all of its files.
#[derive(Debug)]
pub struct SkillPackage {
    pub slug: String,
    pub version: String,
    pub manifest: SkillManifest,
    pub files: Vec<SkillFile>,
}

/// Where a skill comes from.
#[derive(Clone, Copy, Debug, PartialEq, Eq, Structural)]
pub enum SkillSource {
    Github,
    Cloud,
}

/// A skill in a list.
#[derive(Debug)]
pub struct SkillSummary {
    pub slug: String,
    pub author: String,
    pub version: String,
    pub description: Option<String>,
    pub updated_at: Timestamp,
    pub source: SkillSource,
}

/// What a summary says.
pub struct SummaryView {
    pub slug: Seq<char>,
    pub author: Seq<char>,
    pub version: Seq<char>,
    pub description: Option<Seq<char>>,
    pub updated_at: Timestamp,
    pub source: SkillSource,
}

impl View for SkillSummary {
    type V = SummaryView;

    open spec fn view(&self) -> SummaryView {
        SummaryView {
            slug: self.slug@,
            author: self.author@,
            version: self.version@,
            description: text::opt_text(self.description),
            updated_at: self.updated_at,
            source: self.source,
        }
    }
}

/// What the summaries of a list say.
pub open spec fn summaries_of(list: Seq<SkillSummary>) -> Seq<SummaryView> {
    list.map_values(|s: SkillSummary| s@)
}

impl Clone for SkillSummary {
    fn clone(&self) -> (r: Self)
        ensures
            r == *self,
    {
        let description = match &self.description {
            Some(d) => Some(d.clone()),
            None => None,
        };
        SkillSummary {
            slug: self.slug.clone(),
            author: self.author.clone(),
            version: self.version.clone(),
            description,
            updated_at: self.updated_at,
            source: self.source,
        }
    }
}

/// What a publish reports.
#[derive(Debug)]
pub struct PublishReceipt {
    pub slug: String,
    pub version: String,
    pub url: String,
}

/// What a receipt says.
pub struct ReceiptView {
    pub slug: Seq<char>,
    pub version: Seq<char>,
    pub url: Seq<char>,
}

impl View for PublishReceipt {
    type V = ReceiptView;

    open spec fn view(&self) -> ReceiptView {
        ReceiptView { slug: self.slug@, version: self.version@, url: self.url@ }
    }
}

/// A copy of the bytes.
pub fn copy_bytes(bytes: &Vec<u8>) -> (r: Vec<u8>)
    ensures
        r@ == bytes@,
{
    let n: usize = bytes.len();
    let mut out: Vec<u8> = Vec::new();
    let mut i: usize = 0;
    while i < n
        invariant
            n == bytes@.len(),
            i <= n,
            out@ == bytes@.take(i as int),
        decreases n - i,
    {
        out.push(bytes[i]);
        i += 1;
        proof {
            assert(out@ =~= bytes@.take(i as int));
        }
    }
    proof {
        assert(bytes@.take(n as int) =~= bytes@);
    }
    out
}

/// Whether two files hold the same bytes.
pub fn same_bytes(a: &Vec<u8>, b: &Vec<u8>) -> (r: bool)
    ensures
        r == (a@ == b@),
{
    let n: usize = a.len();
    if n != b.len() {
        return false;
    }
    let mut i: usize = 0;
    while i < n
        invariant
            n == a@.len(),
            n == b@.len(),
            i <= n,
            forall|k: int| 0 <= k < i ==> a@[k] == b@[k],
        decreases n - i,
    {
        if a[i] != b[i] {
            return false;
        }
        i += 1;
    }
    proof {
        assert(a@ =~= b@);
    }
    true
}

} // verus!
