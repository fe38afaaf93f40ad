//! The Secrets Manager data model: secrets, their versions and the stages
//! that mark the current one.
use vstd::prelude::*;

use crate::seqs::{first_where, lemma_first_where, lemma_first_where_none};
use crate::strmap::StrMap;
use crate::text::{copy_bytes, copy_opt, opt_view, string_views};

verus! {

pub struct SecretVersion {
    pub version_id: String,
    pub secret_string: Option<String>,
    pub secret_binary: Option<Vec<u8>>,
    /// Milliseconds since the Unix epoch.
    pub created: i64,
    pub version_stages: Vec<String>,
}

pub struct SecretVersionView {
    pub version_id: Seq<char>,
    pub secret_string: Option<Seq<char>>,
    pub secret_binary: Option<Seq<u8>>,
    pub created: i64,
    pub version_stages: Seq<Seq<char>>,
}

impl View for SecretVersion {
    type V = SecretVersionView;

    open spec fn view(&self) -> SecretVersionView {
        SecretVersionView {
            version_id: self.version_id@,
            secret_string: opt_view(self.secret_string),
            secret_binary: match self.secret_binary {
                Some(b) => Some(b@),
                None => None,
            },
            created: self.created,
            version_stages: string_views(self.version_stages@),
        }
    }
}

pub struct Secret {
    pub arn: String,
    pub name: String,
    pub description: String,
    /// Milliseconds since the Unix epoch, as are the other instants.
    pub created: i64,
    pub last_changed: i64,
    pub deleted: bool,
    pub deletion_date: Option<i64>,
    pub versions: Vec<SecretVersion>,
    pub tags: StrMap<String>,
}

pub struct SecretView {
    pub arn: Seq<char>,
    pub name: Seq<char>,
    pub description: Seq<char>,
    pub created: i64,
    pub last_changed: i64,
    pub deleted: bool,
    pub deletion_date: Option<i64>,
    pub versions: Seq<SecretVersionView>,
    pub tags: Map<Seq<char>, Seq<char>>,
}

pub open spec fn version_views(vs: Seq<SecretVersion>) -> Seq<SecretVersionView> {
    vs.map_values(|v: SecretVersion| v@)
}

impl View for Secret {
    type V = SecretView;

    open spec fn view(&self) -> SecretView {
        SecretView {
            arn: self.arn@,
            name: self.name@,
            description: self.description@,
            created: self.created,
            last_changed: self.last_changed,
            deleted: self.deleted,
            deletion_date: self.deletion_date,
            versions: version_views(self.versions@),
            tags: self.tags@,
        }
    }
}

/// Whether a version carries the stage `AWSCURRENT`.
pub open spec fn is_current(v: SecretVersionView) -> bool {
    v.version_stages.contains("AWSCURRENT"@)
}

/// The position of a secret's current version: the first that carries
/// `AWSCURRENT`.
pub open spec fn current_index(s: SecretView) -> Option<int> {
    first_where(s.versions, current_pred())
}

/// The version carries `AWSCURRENT`.
pub open spec fn current_pred() -> spec_fn(SecretVersionView) -> bool {
    |v: SecretVersionView| is_current(v)
}

/// Whether some stage in `stages` is `AWSCURRENT`.
pub fn has_current_stage(stages: &Vec<String>) -> (b: bool)
    ensures
        b == string_views(stages@).contains("AWSCURRENT"@),
{
    let ghost sv = string_views(stages@);
    let mut i: usize = 0;
    while i < stages.len()
        invariant
            i <= stages@.len(),
            sv == string_views(stages@),
            forall|j: int| 0 <= j < i ==> sv[j] != "AWSCURRENT"@,
        decreases stages@.len() - i,
    {
        proof {
            assert(sv[i as int] == stages@[i as int]@);
        }
        if stages[i].as_str().eq("AWSCURRENT") {
            return true;
        }
        i = i + 1;
    }
    false
}

impl Secret {
    /// The current version: the first carrying the stage `AWSCURRENT`.
    pub fn current_version(&self) -> (r: Option<&SecretVersion>)
        ensures
            match current_index(self@) {
                Some(i) => r matches Some(v) && v@ == self@.versions[i],
                None => r is None,
            },
    {
        let ghost vs = self@.versions;
        let ghost p = current_pred();
        let mut i: usize = 0;
        while i < self.versions.len()
            invariant
                i <= self.versions@.len(),
                vs == self@.versions,
                p == current_pred(),
                forall|j: int| 0 <= j < i ==> !p(#[trigger] vs[j]),
            decreases self.versions@.len() - i,
        {
            if has_current_stage(&self.versions[i].version_stages) {
                proof {
                    assert(vs[i as int] == self.versions@[i as int]@);
                    lemma_first_where(vs, p, i as int);
                }
                return Some(&self.versions[i]);
            }
            proof {
                assert(vs[i as int] == self.versions@[i as int]@);
            }
            i = i + 1;
        }
        proof {
            lemma_first_where_none(vs, p);
        }
        None
    }
}

/// A copy of a version with the same view.
pub fn copy_version(v: &SecretVersion) -> (r: SecretVersion)
    ensures
        r@ == v@,
{
    SecretVersion {
        version_id: v.version_id.clone(),
        secret_string: copy_opt(&v.secret_string),
        secret_binary: match &v.secret_binary {
            Some(b) => Some(copy_bytes(b)),
            None => None,
        },
        created: v.created,
        version_stages: copy_strings(&v.version_stages),
    }
}

/// A copy of a list of strings with the same views.
pub fn copy_strings(v: &Vec<String>) -> (r: Vec<String>)
    ensures
        string_views(r@) == string_views(v@),
{
    let mut r: Vec<String> = Vec::new();
    let mut i: usize = 0;
    while i < v.len()
        invariant
            i <= v@.len(),
            r@.len() == i,
            forall|j: int| 0 <= j < i ==> (#[trigger] r@[j])@ == v@[j]@,
        decreases v@.len() - i,
    {
        r.push(v[i].clone());
        i = i + 1;
    }
    proof {
        assert(string_views(r@) =~= string_views(v@));
    }
    r
}

/// One account and region's secrets, by name.
pub struct SecretsManagerStore {
    pub secrets: StrMap<Secret>,
}

impl View for SecretsManagerStore {
    type V = Map<Seq<char>, SecretView>;

    open spec fn view(&self) -> Map<Seq<char>, SecretView> {
        self.secrets@
    }
}

impl SecretsManagerStore {
    pub open spec fn wf(&self) -> bool {
        self.secrets.wf()
    }

    /// An empty store.
    pub fn new() -> (s: Self)
        ensures
            s.wf(),
            s@ == Map::<Seq<char>, SecretView>::empty(),
            s.secrets.vals_seq().len() == 0,
    {
        SecretsManagerStore { secrets: StrMap::new() }
    }
}

} // verus!
