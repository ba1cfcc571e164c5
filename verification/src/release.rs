//! Data model of the release engine.
//!
//! `RawRelease` holds, as plain optional strings, exactly what the engine
//! reads out of the upstream release index entry; `NormalizedRelease` is the
//! transformed result: the published version, the cleaned release notes, the
//! publication timestamp passed through verbatim, and a mapping from platform
//! identifier to the artifact found for it. The mapping is kept as a vector
//! of pairs with pairwise distinct keys; its mathematical view is a `Map`
//! from key to artifact view, so insertion order never shows in a contract.

use vstd::prelude::*;

verus! {

/// One asset of the raw upstream release: a file name and a download URL,
/// either of which the semi-trusted payload may lack.
pub struct RawAsset {
    pub name: Option<String>,
    pub browser_download_url: Option<String>,
}

/// The fields the engine reads from the raw upstream release description.
pub struct RawRelease {
    pub tag_name: Option<String>,
    pub body: Option<String>,
    pub published_at: Option<String>,
    pub assets: Vec<RawAsset>,
}

/// The artifact recorded for one platform: a download URL, a signature,
/// both, or (while accumulating) neither.
pub struct PlatformArtifact {
    pub url: Option<String>,
    pub signature: Option<String>,
}

/// The normalized release handed to callers.
pub struct NormalizedRelease {
    pub version: String,
    pub notes: String,
    pub pub_date: String,
    pub platforms: Vec<(String, PlatformArtifact)>,
}

/// The view of an optional string.
pub open spec fn opt_view(o: Option<String>) -> Option<Seq<char>> {
    match o {
        Some(s) => Some(s@),
        None => None,
    }
}

/// Mathematical view of a `RawAsset`.
#[verifier::ext_equal]
pub ghost struct AssetView {
    pub name: Option<Seq<char>>,
    pub url: Option<Seq<char>>,
}

impl View for RawAsset {
    type V = AssetView;

    open spec fn view(&self) -> AssetView {
        AssetView { name: opt_view(self.name), url: opt_view(self.browser_download_url) }
    }
}

/// Mathematical view of a `RawRelease`.
#[verifier::ext_equal]
pub ghost struct RawReleaseView {
    pub tag_name: Option<Seq<char>>,
    pub body: Option<Seq<char>>,
    pub published_at: Option<Seq<char>>,
    pub assets: Seq<AssetView>,
}

impl View for RawRelease {
    type V = RawReleaseView;

    open spec fn view(&self) -> RawReleaseView {
        RawReleaseView {
            tag_name: opt_view(self.tag_name),
            body: opt_view(self.body),
            published_at: opt_view(self.published_at),
            assets: self.assets@.map_values(|a: RawAsset| a@),
        }
    }
}

/// Mathematical view of a `PlatformArtifact`.
#[verifier::ext_equal]
pub ghost struct ArtifactView {
    pub url: Option<Seq<char>>,
    pub signature: Option<Seq<char>>,
}

impl View for PlatformArtifact {
    type V = ArtifactView;

    open spec fn view(&self) -> ArtifactView {
        ArtifactView { url: opt_view(self.url), signature: opt_view(self.signature) }
    }
}

/// Mathematical view of a `NormalizedRelease`.
#[verifier::ext_equal]
pub ghost struct ReleaseView {
    pub version: Seq<char>,
    pub notes: Seq<char>,
    pub pub_date: Seq<char>,
    pub platforms: Map<Seq<char>, ArtifactView>,
}

/// Pairwise distinct platform keys.
pub open spec fn unique_keys(s: Seq<(String, PlatformArtifact)>) -> bool {
    forall|i: int, j: int| 0 <= i < j < s.len() ==> s[i].0@ != s[j].0@
}

/// The mapping that a sequence of key/artifact pairs stands for; a later
/// pair with the same key would win, and under `unique_keys` there is none.
pub open spec fn pairs_to_map(s: Seq<(String, PlatformArtifact)>) -> Map<Seq<char>, ArtifactView>
    decreases s.len(),
{
    if s.len() == 0 {
        Map::empty()
    } else {
        pairs_to_map(s.drop_last()).insert(s.last().0@, s.last().1@)
    }
}

impl View for NormalizedRelease {
    type V = ReleaseView;

    open spec fn view(&self) -> ReleaseView {
        ReleaseView {
            version: self.version@,
            notes: self.notes@,
            pub_date: self.pub_date@,
            platforms: pairs_to_map(self.platforms@),
        }
    }
}

impl NormalizedRelease {
    /// The platform vector never repeats a key.
    pub open spec fn well_formed(&self) -> bool {
        unique_keys(self.platforms@)
    }
}

/// A key is in the mapping exactly when some pair carries it, and under
/// `unique_keys` that pair's artifact is the one mapped.
pub proof fn lemma_pairs_to_map_index(s: Seq<(String, PlatformArtifact)>)
    ensures
        forall|k: Seq<char>|
            #[trigger] pairs_to_map(s).contains_key(k) ==> exists|i: int|
                0 <= i < s.len() && s[i].0@ == k,
        forall|i: int|
            0 <= i < s.len() ==> #[trigger] pairs_to_map(s).contains_key(s[i].0@),
        unique_keys(s) ==> forall|i: int|
            0 <= i < s.len() ==> pairs_to_map(s)[#[trigger] s[i].0@] == s[i].1@,
    decreases s.len(),
{
    if s.len() > 0 {
        lemma_pairs_to_map_index(s.drop_last());
        assert forall|k: Seq<char>| #[trigger] pairs_to_map(s).contains_key(k) implies exists|
            i: int,
        | 0 <= i < s.len() && s[i].0@ == k by {
            if k == s.last().0@ {
                assert(s[s.len() - 1].0@ == k);
            } else {
                assert(pairs_to_map(s.drop_last()).contains_key(k));
                let i = choose|i: int| 0 <= i < s.drop_last().len() && s.drop_last()[i].0@ == k;
                assert(s[i] == s.drop_last()[i]);
                assert(s[i].0@ == k);
            }
        }
        assert forall|i: int| 0 <= i < s.len() implies #[trigger] pairs_to_map(s).contains_key(
            s[i].0@,
        ) by {
            if i < s.len() - 1 {
                assert(s.drop_last()[i].0@ == s[i].0@);
                assert(pairs_to_map(s.drop_last()).contains_key(s[i].0@));
            }
        }
        if unique_keys(s) {
            assert forall|i: int, j: int| 0 <= i < j < s.drop_last().len() implies s.drop_last()[i].0@
                != s.drop_last()[j].0@ by {
                assert(s[i].0@ != s[j].0@);
            }
            assert forall|i: int| 0 <= i < s.len() implies pairs_to_map(s)[#[trigger] s[i].0@]
                == s[i].1@ by {
                if i < s.len() - 1 {
                    assert(s[i].0@ != s.last().0@);
                    assert(s.drop_last()[i].0@ == s[i].0@);
                    assert(pairs_to_map(s.drop_last())[s[i].0@] == s[i].1@);
                }
            }
        }
    }
}

/// Replacing the artifact of the pair at `j` updates exactly that key.
pub proof fn lemma_pairs_to_map_update(
    s: Seq<(String, PlatformArtifact)>,
    j: int,
    p: (String, PlatformArtifact),
)
    requires
        unique_keys(s),
        0 <= j < s.len(),
        p.0@ == s[j].0@,
    ensures
        pairs_to_map(s.update(j, p)) == pairs_to_map(s).insert(p.0@, p.1@),
    decreases s.len(),
{
    let t = s.update(j, p);
    if j == s.len() - 1 {
        assert(t.drop_last() =~= s.drop_last());
        assert(t.last() == p);
        assert(pairs_to_map(t) =~= pairs_to_map(s).insert(p.0@, p.1@));
    } else {
        assert forall|a: int, b: int| 0 <= a < b < s.drop_last().len() implies s.drop_last()[a].0@
            != s.drop_last()[b].0@ by {
            assert(s[a].0@ != s[b].0@);
        }
        assert(s.drop_last()[j] == s[j]);
        lemma_pairs_to_map_update(s.drop_last(), j, p);
        assert(t.drop_last() =~= s.drop_last().update(j, p));
        assert(t.last() == s.last());
        // the final inserts touch distinct keys, so they commute
        assert(s[j].0@ != s[s.len() - 1].0@);
        assert(pairs_to_map(t) =~= pairs_to_map(s).insert(p.0@, p.1@));
    }
}

/// Sequences of pairs with equal views stand for the same mapping.
pub proof fn lemma_pairs_to_map_congruence(
    s1: Seq<(String, PlatformArtifact)>,
    s2: Seq<(String, PlatformArtifact)>,
)
    requires
        s1.len() == s2.len(),
        forall|i: int| 0 <= i < s1.len() ==> s1[i].0@ == s2[i].0@ && s1[i].1@ == s2[i].1@,
    ensures
        pairs_to_map(s1) == pairs_to_map(s2),
    decreases s1.len(),
{
    if s1.len() > 0 {
        assert forall|i: int| 0 <= i < s1.drop_last().len() implies s1.drop_last()[i].0@
            == s2.drop_last()[i].0@ && s1.drop_last()[i].1@ == s2.drop_last()[i].1@ by {
            assert(s1[i].0@ == s2[i].0@ && s1[i].1@ == s2[i].1@);
        }
        lemma_pairs_to_map_congruence(s1.drop_last(), s2.drop_last());
        assert(s1.last().0@ == s2.last().0@ && s1.last().1@ == s2.last().1@);
    }
}

/// Clones an optional string.
fn clone_opt_string(o: &Option<String>) -> (r: Option<String>)
    ensures
        opt_view(r) == opt_view(*o),
{
    match o {
        Some(s) => Some(s.clone()),
        None => None,
    }
}

impl Clone for PlatformArtifact {
    /// The clone has the same view.
    fn clone(&self) -> (r: Self)
        ensures
            r@ == self@,
    {
        PlatformArtifact {
            url: clone_opt_string(&self.url),
            signature: clone_opt_string(&self.signature),
        }
    }
}

impl Clone for NormalizedRelease {
    /// The clone has the same view and stays well formed.
    fn clone(&self) -> (r: Self)
        ensures
            r@ == self@,
            r.well_formed() == self.well_formed(),
    {
        let mut platforms: Vec<(String, PlatformArtifact)> = Vec::new();
        let n = self.platforms.len();
        let mut i: usize = 0;
        while i < n
            invariant
                n == self.platforms@.len(),
                i <= n,
                platforms@.len() == i,
                forall|j: int|
                    0 <= j < i ==> platforms@[j].0@ == self.platforms@[j].0@ && platforms@[j].1@
                        == self.platforms@[j].1@,
            decreases n - i,
        {
            let pair = &self.platforms[i];
            platforms.push((pair.0.clone(), pair.1.clone()));
            i += 1;
        }
        proof {
            lemma_pairs_to_map_congruence(platforms@, self.platforms@);
            assert forall|a: int, b: int|
                0 <= a < b < platforms@.len() && unique_keys(self.platforms@) implies platforms@[a].0@
                != platforms@[b].0@ by {
                assert(self.platforms@[a].0@ != self.platforms@[b].0@);
            }
            assert forall|a: int, b: int|
                0 <= a < b < self.platforms@.len() && unique_keys(platforms@) implies self.platforms@[a].0@
                != self.platforms@[b].0@ by {
                assert(platforms@[a].0@ != platforms@[b].0@);
            }
        }
        let r = NormalizedRelease {
            version: self.version.clone(),
            notes: self.notes.clone(),
            pub_date: self.pub_date.clone(),
            platforms,
        };
        proof {
            assert(r@ =~= self@);
        }
        r
    }
}

/// The artifact recorded for `key`, when there is one.
pub fn artifact_for<'a>(release: &'a NormalizedRelease, key: &str) -> (r: Option<
    &'a PlatformArtifact,
>)
    requires
        release.well_formed(),
    ensures
        match r {
            Some(a) => release@.platforms.contains_key(key@) && release@.platforms[key@] == a@,
            None => !release@.platforms.contains_key(key@),
        },
{
    let n = release.platforms.len();
    let mut i: usize = 0;
    proof {
        lemma_pairs_to_map_index(release.platforms@);
    }
    while i < n
        invariant
            n == release.platforms@.len(),
            i <= n,
            release.well_formed(),
            forall|j: int| 0 <= j < i ==> release.platforms@[j].0@ != key@,
            forall|j: int|
                0 <= j < n ==> #[trigger] pairs_to_map(release.platforms@).contains_key(
                    release.platforms@[j].0@,
                ) && pairs_to_map(release.platforms@)[release.platforms@[j].0@]
                    == release.platforms@[j].1@,
            forall|k: Seq<char>|
                #[trigger] pairs_to_map(release.platforms@).contains_key(k) ==> exists|j: int|
                    0 <= j < n && release.platforms@[j].0@ == k,
        decreases n - i,
    {
        let pair = &release.platforms[i];
        if crate::utils::str_eq(pair.0.as_str(), key) {
            return Some(&pair.1);
        }
        i += 1;
    }
    None
}

} // verus!
