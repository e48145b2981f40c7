//! Plain data carried between the engine, its caller and the backends.

use vstd::prelude::*;

verus! {

/// A reference to a mod as given by the user or produced by a resolution
/// step: the canonical URL form `https://mod.io/g/drg/m/<slug>[#<id>[/<file>]]`.
#[derive(Debug, PartialEq, Eq)]
pub struct ModSpecification {
    pub url: String,
}

impl ModSpecification {
    pub fn new(url: String) -> (r: Self)
        ensures
            r.url@ == url@,
    {
        ModSpecification { url }
    }

    /// A structurally equal copy.
    pub fn duplicate(&self) -> (r: Self)
        ensures
            r == *self,
    {
        ModSpecification { url: self.url.clone() }
    }
}

/// The download locator of a fully pinned mod; keeps the exact version the
/// caller asked for even when the mod's identity is reported id-based.
#[derive(Debug, PartialEq, Eq)]
pub struct ModResolution {
    pub url: String,
}

impl ModResolution {
    /// A resolution that can be fetched from the remote service.
    pub fn resolvable(url: String) -> (r: Self)
        ensures
            r.url@ == url@,
    {
        ModResolution { url }
    }

    pub fn duplicate(&self) -> (r: Self)
        ensures
            r == *self,
    {
        ModResolution { url: self.url.clone() }
    }
}

/// Opaque handle the blob store assigns to a stored payload.
#[derive(Debug, PartialEq, Eq)]
pub struct BlobRef {
    pub key: String,
}

impl BlobRef {
    pub fn new(key: String) -> (r: Self)
        ensures
            r.key@ == key@,
    {
        BlobRef { key }
    }

    pub fn duplicate(&self) -> (r: Self)
        ensures
            r == *self,
    {
        BlobRef { key: self.key.clone() }
    }
}

/// One uploaded version of a mod, immutable once observed.
#[derive(Debug, PartialEq, Eq)]
pub struct ModioFile {
    pub id: u32,
    pub date_added: u64,
    pub version: Option<String>,
    pub changelog: Option<String>,
}

impl ModioFile {
    pub fn duplicate(&self) -> (r: Self)
        ensures
            r == *self,
    {
        ModioFile {
            id: self.id,
            date_added: self.date_added,
            version: duplicate_opt_string(&self.version),
            changelog: duplicate_opt_string(&self.changelog),
        }
    }
}

/// Latest known metadata for one mod, as cached per mod id.
#[derive(Debug, PartialEq, Eq)]
pub struct ModioMod {
    pub name_id: String,
    pub name: String,
    pub latest_modfile: Option<u32>,
    pub modfiles: Vec<ModioFile>,
    pub tags: Vec<String>,
}

/// Two mod entries that agree on everything observable; copies of a mod
/// entry are interchangeable up to this relation (the vector fields of the
/// copy need not be the same allocation).
pub open spec fn mod_eqv(a: ModioMod, b: ModioMod) -> bool {
    &&& a.name_id@ == b.name_id@
    &&& a.name@ == b.name@
    &&& a.latest_modfile == b.latest_modfile
    &&& a.modfiles@ == b.modfiles@
    &&& a.tags@ == b.tags@
}

impl ModioMod {
    pub fn duplicate(&self) -> (r: Self)
        ensures
            mod_eqv(r, *self),
    {
        ModioMod {
            name_id: self.name_id.clone(),
            name: self.name.clone(),
            latest_modfile: self.latest_modfile,
            modfiles: duplicate_files(&self.modfiles),
            tags: duplicate_strings(&self.tags),
        }
    }
}

/// Result row of a search by slug: only the id is used.
#[derive(Debug, PartialEq, Eq)]
pub struct ModioModResponse {
    pub id: u32,
}

/// Result row of a batch lookup by ids: id plus slug.
#[derive(Debug, PartialEq, Eq)]
pub struct ModSummary {
    pub id: u32,
    pub name_id: String,
}

/// What the engine reads from a file-metadata lookup before downloading.
#[derive(Debug, PartialEq, Eq)]
pub struct ModioFileMeta {
    pub filesize: u64,
}

/// One call the engine asks the embedding application to make against the
/// remote repository capability. The application performs the call and feeds
/// the outcome back as a [`BackendResponse`].
pub enum BackendRequest {
    FetchMod { mod_id: u32 },
    FetchDependencies { mod_id: u32 },
    FetchModsByIds { mod_ids: Vec<u32> },
    FetchFiles { mod_id: u32 },
    FetchModsByName { name_id: String },
    FetchModUpdatesSince { mod_ids: Vec<u32>, last_update: u64 },
}

/// The outcome of a [`BackendRequest`], as plain data.
pub enum BackendResponse {
    Mod(ModioMod),
    Dependencies(Vec<u32>),
    Summaries(Vec<ModSummary>),
    SearchResults(Vec<ModioModResponse>),
    ChangedSince(Vec<u32>),
    FileMeta(ModioFileMeta),
}

pub fn duplicate_opt_string(s: &Option<String>) -> (r: Option<String>)
    ensures
        r == *s,
{
    match s {
        Some(v) => Some(v.clone()),
        None => None,
    }
}

pub fn duplicate_strings(v: &Vec<String>) -> (r: Vec<String>)
    ensures
        r@ == v@,
{
    let mut out: Vec<String> = Vec::new();
    let mut i: usize = 0;
    while i < v.len()
        invariant
            i <= v.len(),
            out@ =~= v@.take(i as int),
        decreases v.len() - i,
    {
        out.push(v[i].clone());
        i = i + 1;
    }
    proof {
        assert(v@.take(v@.len() as int) =~= v@);
    }
    out
}

pub fn duplicate_ids(v: &Vec<u32>) -> (r: Vec<u32>)
    ensures
        r@ == v@,
{
    let mut out: Vec<u32> = Vec::new();
    let mut i: usize = 0;
    while i < v.len()
        invariant
            i <= v.len(),
            out@ =~= v@.take(i as int),
        decreases v.len() - i,
    {
        out.push(v[i]);
        i = i + 1;
    }
    proof {
        assert(v@.take(v@.len() as int) =~= v@);
    }
    out
}

pub fn duplicate_files(v: &Vec<ModioFile>) -> (r: Vec<ModioFile>)
    ensures
        r@ == v@,
{
    let mut out: Vec<ModioFile> = Vec::new();
    let mut i: usize = 0;
    while i < v.len()
        invariant
            i <= v.len(),
            out@ =~= v@.take(i as int),
        decreases v.len() - i,
    {
        out.push(v[i].duplicate());
        i = i + 1;
    }
    proof {
        assert(v@.take(v@.len() as int) =~= v@);
    }
    out
}

} // verus!
