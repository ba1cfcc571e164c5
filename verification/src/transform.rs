//! The release transformer.
//!
//! `normalize` turns a raw upstream release description into a
//! `NormalizedRelease`: it takes the version, the cleaned notes and the
//! publication timestamp from the required fields, and walks the assets. A
//! fixed table maps filename suffixes to platform identifiers; an asset whose
//! name ends with a table suffix records its download URL under every mapped
//! platform, and an asset whose name ends with that suffix followed by
//! `.sig` records a signature body instead. Signature bodies are downloaded
//! outside the library: `signature_urls` lists the URLs to fetch, in asset
//! order, and `normalize` is handed the fetched bodies (an empty string
//! standing for a failed fetch) in the same order.

use vstd::prelude::*;

use crate::release::ArtifactView;
use crate::release::AssetView;
use crate::release::NormalizedRelease;
use crate::release::PlatformArtifact;
use crate::release::RawRelease;
use crate::release::RawReleaseView;
use crate::release::ReleaseView;
use crate::release::lemma_pairs_to_map_index;
use crate::release::lemma_pairs_to_map_update;
use crate::release::pairs_to_map;
use crate::release::unique_keys;
use crate::utils::remove_suffix;
use crate::utils::seq_ends_with;
use crate::utils::spec_remove_suffix;
use crate::utils::spec_trim_end;
use crate::utils::str_ends_with;
use crate::utils::trim_release_notes_end;
use crate::utils::views_of;

verus! {

/// The boilerplate sentence stripped from the end of release notes.
pub open spec fn boilerplate() -> Seq<char> {
    "See the assets to download this version and install."@
}

/// Release-notes cleaning: trailing carriage returns, newlines and spaces
/// are dropped, the boilerplate sentence then ending the text is stripped,
/// and the end is trimmed once more.
pub open spec fn spec_clean_notes(s: Seq<char>) -> Seq<char> {
    spec_trim_end(spec_remove_suffix(spec_trim_end(s), boilerplate()))
}

/// See `spec_clean_notes`.
pub fn clean_notes<'a>(s: &'a str) -> (r: &'a str)
    ensures
        r@ == spec_clean_notes(s@),
{
    let trimmed = trim_release_notes_end(s);
    let stripped = remove_suffix(
        trimmed,
        "See the assets to download this version and install.",
    );
    trim_release_notes_end(stripped)
}

/// The platforms whose installer a file with this name provides, by the
/// fixed suffix table.
pub open spec fn url_platforms(name: Seq<char>) -> Seq<Seq<char>> {
    if seq_ends_with(name, "amd64.AppImage.tar.gz"@) {
        seq!["linux-x86_64"@]
    } else if seq_ends_with(name, "app.tar.gz"@) {
        seq!["darwin-x86_64"@, "darwin-aarch64"@]
    } else if seq_ends_with(name, "x64_en-US.msi.zip"@) {
        seq!["windows-x86_64"@]
    } else {
        Seq::empty()
    }
}

/// The platforms whose signature a file with this name provides: the same
/// table, each suffix followed by `.sig`.
pub open spec fn sig_platforms(name: Seq<char>) -> Seq<Seq<char>> {
    if seq_ends_with(name, "amd64.AppImage.tar.gz.sig"@) {
        seq!["linux-x86_64"@]
    } else if seq_ends_with(name, "app.tar.gz.sig"@) {
        seq!["darwin-x86_64"@, "darwin-aarch64"@]
    } else if seq_ends_with(name, "x64_en-US.msi.zip.sig"@) {
        seq!["windows-x86_64"@]
    } else {
        Seq::empty()
    }
}

/// A well-formed asset that provides an installer.
pub open spec fn is_installer_asset(a: AssetView) -> bool {
    a.name is Some && a.url is Some && url_platforms(a.name->0).len() > 0
}

/// A well-formed asset that provides a signature file. An installer match
/// takes precedence, mirroring the order of the suffix tests.
pub open spec fn is_sig_asset(a: AssetView) -> bool {
    a.name is Some && a.url is Some && url_platforms(a.name->0).len() == 0 && sig_platforms(
        a.name->0,
    ).len() > 0
}

/// Download URLs of the signature files among `assets`, in asset order.
pub open spec fn spec_signature_urls(assets: Seq<AssetView>) -> Seq<Seq<char>>
    decreases assets.len(),
{
    if assets.len() == 0 {
        Seq::empty()
    } else if is_sig_asset(assets.last()) {
        spec_signature_urls(assets.drop_last()) + seq![assets.last().url->0]
    } else {
        spec_signature_urls(assets.drop_last())
    }
}

/// Records `u` as the download URL for platform `p`, keeping a signature
/// already recorded for it.
pub open spec fn set_url_one(
    m: Map<Seq<char>, ArtifactView>,
    p: Seq<char>,
    u: Seq<char>,
) -> Map<Seq<char>, ArtifactView> {
    m.insert(
        p,
        ArtifactView {
            url: Some(u),
            signature: if m.contains_key(p) {
                m[p].signature
            } else {
                None
            },
        },
    )
}

/// Records `sgn` as the signature for platform `p`, keeping a URL already
/// recorded for it.
pub open spec fn set_sig_one(
    m: Map<Seq<char>, ArtifactView>,
    p: Seq<char>,
    sgn: Seq<char>,
) -> Map<Seq<char>, ArtifactView> {
    m.insert(
        p,
        ArtifactView {
            url: if m.contains_key(p) {
                m[p].url
            } else {
                None
            },
            signature: Some(sgn),
        },
    )
}

/// Records `u` as the download URL for every platform in `plats`.
pub open spec fn set_url_all(
    m: Map<Seq<char>, ArtifactView>,
    plats: Seq<Seq<char>>,
    u: Seq<char>,
) -> Map<Seq<char>, ArtifactView>
    decreases plats.len(),
{
    if plats.len() == 0 {
        m
    } else {
        set_url_one(set_url_all(m, plats.drop_last(), u), plats.last(), u)
    }
}

/// Records `sgn` as the signature for every platform in `plats`.
pub open spec fn set_sig_all(
    m: Map<Seq<char>, ArtifactView>,
    plats: Seq<Seq<char>>,
    sgn: Seq<char>,
) -> Map<Seq<char>, ArtifactView>
    decreases plats.len(),
{
    if plats.len() == 0 {
        m
    } else {
        set_sig_one(set_sig_all(m, plats.drop_last(), sgn), plats.last(), sgn)
    }
}

/// One step of the platform-map assembly: the effect of one asset on the
/// map, together with the number of signature bodies consumed so far.
pub open spec fn apply_asset(
    m: Map<Seq<char>, ArtifactView>,
    a: AssetView,
    sigs: Seq<Seq<char>>,
    k: nat,
) -> (Map<Seq<char>, ArtifactView>, nat) {
    if is_installer_asset(a) {
        (set_url_all(m, url_platforms(a.name->0), a.url->0), k)
    } else if is_sig_asset(a) {
        (
            set_sig_all(
                m,
                sig_platforms(a.name->0),
                if k < sigs.len() {
                    sigs[k as int]
                } else {
                    Seq::empty()
                },
            ),
            k + 1,
        )
    } else {
        (m, k)
    }
}

/// The platform map assembled from `assets`, with signature bodies taken
/// from `sigs` in asset order.
pub open spec fn build_platforms(assets: Seq<AssetView>, sigs: Seq<Seq<char>>) -> (
    Map<Seq<char>, ArtifactView>,
    nat,
)
    decreases assets.len(),
{
    if assets.len() == 0 {
        (Map::empty(), 0)
    } else {
        let prev = build_platforms(assets.drop_last(), sigs);
        apply_asset(prev.0, assets.last(), sigs, prev.1)
    }
}

/// The whole normalization at the level of views: `None` exactly when one of
/// the three required fields is absent.
pub open spec fn spec_normalize(raw: RawReleaseView, sigs: Seq<Seq<char>>) -> Option<ReleaseView> {
    if raw.tag_name is None || raw.body is None || raw.published_at is None {
        None
    } else {
        Some(
            ReleaseView {
                version: raw.tag_name->0,
                notes: spec_clean_notes(raw.body->0),
                pub_date: raw.published_at->0,
                platforms: build_platforms(raw.assets, sigs).0,
            },
        )
    }
}

/// The platforms an installer with this name is for, as a vector.
fn installer_platforms(name: &str) -> (r: Vec<String>)
    ensures
        views_of(r@) == url_platforms(name@),
{
    let mut v: Vec<String> = Vec::new();
    if str_ends_with(name, "amd64.AppImage.tar.gz") {
        v.push("linux-x86_64".to_owned());
    } else if str_ends_with(name, "app.tar.gz") {
        v.push("darwin-x86_64".to_owned());
        v.push("darwin-aarch64".to_owned());
    } else if str_ends_with(name, "x64_en-US.msi.zip") {
        v.push("windows-x86_64".to_owned());
    }
    proof {
        assert(views_of(v@) =~= url_platforms(name@));
    }
    v
}

/// The platforms a signature file with this name is for, as a vector.
fn signature_platforms(name: &str) -> (r: Vec<String>)
    ensures
        views_of(r@) == sig_platforms(name@),
{
    let mut v: Vec<String> = Vec::new();
    if str_ends_with(name, "amd64.AppImage.tar.gz.sig") {
        v.push("linux-x86_64".to_owned());
    } else if str_ends_with(name, "app.tar.gz.sig") {
        v.push("darwin-x86_64".to_owned());
        v.push("darwin-aarch64".to_owned());
    } else if str_ends_with(name, "x64_en-US.msi.zip.sig") {
        v.push("windows-x86_64".to_owned());
    }
    proof {
        assert(views_of(v@) =~= sig_platforms(name@));
    }
    v
}

/// Download URLs of the signature files of `raw`, in asset order. The
/// caller fetches each and hands the bodies to `normalize` in this order.
pub fn signature_urls(raw: &RawRelease) -> (r: Vec<String>)
    ensures
        views_of(r@) == spec_signature_urls(raw@.assets),
{
    let mut r: Vec<String> = Vec::new();
    let n = raw.assets.len();
    let mut i: usize = 0;
    proof {
        assert(raw@.assets.take(0) =~= Seq::<AssetView>::empty());
        assert(views_of(r@) =~= spec_signature_urls(raw@.assets.take(0)));
    }
    while i < n
        invariant
            n == raw.assets@.len(),
            i <= n,
            raw@.assets.len() == n,
            views_of(r@) == spec_signature_urls(raw@.assets.take(i as int)),
        decreases n - i,
    {
        proof {
            assert(raw@.assets[i as int] == raw.assets@[i as int]@);
            assert(raw@.assets.take(i + 1).drop_last() =~= raw@.assets.take(i as int));
            assert(raw@.assets.take(i + 1).last() == raw@.assets[i as int]);
        }
        let asset = &raw.assets[i];
        match (&asset.name, &asset.browser_download_url) {
            (Some(name), Some(url)) => {
                let ip = installer_platforms(name.as_str());
                if ip.len() == 0 {
                    let sp = signature_platforms(name.as_str());
                    if sp.len() > 0 {
                        let u = url.clone();
                        proof {
                            assert(views_of(r@.push(u)) =~= views_of(r@) + seq![u@]);
                        }
                        r.push(u);
                    }
                }
            },
            _ => {},
        }
        i += 1;
    }
    proof {
        assert(raw@.assets.take(n as int) =~= raw@.assets);
    }
    r
}

/// Records `url` as the download URL of platform `key`, creating the entry
/// when absent and keeping a recorded signature.
fn upsert_url(platforms: &mut Vec<(String, PlatformArtifact)>, key: &String, url: &String)
    requires
        unique_keys(old(platforms)@),
    ensures
        unique_keys(final(platforms)@),
        pairs_to_map(final(platforms)@) == set_url_one(pairs_to_map(old(platforms)@), key@, url@),
{
    let n = platforms.len();
    let mut j: usize = 0;
    proof {
        lemma_pairs_to_map_index(platforms@);
    }
    while j < n
        invariant
            n == platforms@.len(),
            j <= n,
            platforms@ == old(platforms)@,
            unique_keys(platforms@),
            forall|k: int| 0 <= k < j ==> platforms@[k].0@ != key@,
        decreases n - j,
    {
        let found = crate::utils::str_eq(platforms[j].0.as_str(), key.as_str());
        if found {
            let old_sig = match &platforms[j].1.signature {
                Some(s) => Some(s.clone()),
                None => None,
            };
            let new_pair = (platforms[j].0.clone(), PlatformArtifact { url: Some(url.clone()), signature: old_sig });
            proof {
                lemma_pairs_to_map_index(platforms@);
                lemma_pairs_to_map_update(platforms@, j as int, new_pair);
            }
            platforms[j] = new_pair;
            proof {
                assert forall|a: int, b: int| 0 <= a < b < platforms@.len() implies platforms@[a].0@
                    != platforms@[b].0@ by {
                    assert(old(platforms)@[a].0@ != old(platforms)@[b].0@);
                }
                assert(pairs_to_map(platforms@) =~= set_url_one(
                    pairs_to_map(old(platforms)@),
                    key@,
                    url@,
                ));
            }
            return;
        }
        j += 1;
    }
    let new_pair = (key.clone(), PlatformArtifact { url: Some(url.clone()), signature: None });
    proof {
        lemma_pairs_to_map_index(platforms@);
        if pairs_to_map(platforms@).contains_key(key@) {
            let w = choose|w: int| 0 <= w < platforms@.len() && platforms@[w].0@ == key@;
            assert(false);
        }
    }
    platforms.push(new_pair);
    proof {
        let s = platforms@;
        assert(s.drop_last() =~= old(platforms)@);
        assert(s.last() == new_pair);
        assert forall|a: int, b: int| 0 <= a < b < s.len() implies s[a].0@ != s[b].0@ by {
            if b < s.len() - 1 {
                assert(old(platforms)@[a].0@ != old(platforms)@[b].0@);
            } else {
                assert(s[a].0@ != key@);
            }
        }
        assert(pairs_to_map(s) =~= set_url_one(pairs_to_map(old(platforms)@), key@, url@));
    }
}

/// Records `sgn` as the signature of platform `key`, creating the entry
/// when absent and keeping a recorded URL.
fn upsert_sig(platforms: &mut Vec<(String, PlatformArtifact)>, key: &String, sgn: &String)
    requires
        unique_keys(old(platforms)@),
    ensures
        unique_keys(final(platforms)@),
        pairs_to_map(final(platforms)@) == set_sig_one(pairs_to_map(old(platforms)@), key@, sgn@),
{
    let n = platforms.len();
    let mut j: usize = 0;
    proof {
        lemma_pairs_to_map_index(platforms@);
    }
    while j < n
        invariant
            n == platforms@.len(),
            j <= n,
            platforms@ == old(platforms)@,
            unique_keys(platforms@),
            forall|k: int| 0 <= k < j ==> platforms@[k].0@ != key@,
        decreases n - j,
    {
        let found = crate::utils::str_eq(platforms[j].0.as_str(), key.as_str());
        if found {
            let old_url = match &platforms[j].1.url {
                Some(s) => Some(s.clone()),
                None => None,
            };
            let new_pair = (platforms[j].0.clone(), PlatformArtifact { url: old_url, signature: Some(sgn.clone()) });
            proof {
                lemma_pairs_to_map_index(platforms@);
                lemma_pairs_to_map_update(platforms@, j as int, new_pair);
            }
            platforms[j] = new_pair;
            proof {
                assert forall|a: int, b: int| 0 <= a < b < platforms@.len() implies platforms@[a].0@
                    != platforms@[b].0@ by {
                    assert(old(platforms)@[a].0@ != old(platforms)@[b].0@);
                }
                assert(pairs_to_map(platforms@) =~= set_sig_one(
                    pairs_to_map(old(platforms)@),
                    key@,
                    sgn@,
                ));
            }
            return;
        }
        j += 1;
    }
    let new_pair = (key.clone(), PlatformArtifact { url: None, signature: Some(sgn.clone()) });
    proof {
        lemma_pairs_to_map_index(platforms@);
        if pairs_to_map(platforms@).contains_key(key@) {
            let w = choose|w: int| 0 <= w < platforms@.len() && platforms@[w].0@ == key@;
            assert(false);
        }
    }
    platforms.push(new_pair);
    proof {
        let s = platforms@;
        assert(s.drop_last() =~= old(platforms)@);
        assert(s.last() == new_pair);
        assert forall|a: int, b: int| 0 <= a < b < s.len() implies s[a].0@ != s[b].0@ by {
            if b < s.len() - 1 {
                assert(old(platforms)@[a].0@ != old(platforms)@[b].0@);
            } else {
                assert(s[a].0@ != key@);
            }
        }
        assert(pairs_to_map(s) =~= set_sig_one(pairs_to_map(old(platforms)@), key@, sgn@));
    }
}

/// Records `url` for every platform in `keys`.
fn upsert_urls(platforms: &mut Vec<(String, PlatformArtifact)>, keys: &Vec<String>, url: &String)
    requires
        unique_keys(old(platforms)@),
    ensures
        unique_keys(final(platforms)@),
        pairs_to_map(final(platforms)@) == set_url_all(
            pairs_to_map(old(platforms)@),
            views_of(keys@),
            url@,
        ),
{
    let n = keys.len();
    let mut j: usize = 0;
    proof {
        assert(views_of(keys@).take(0) =~= Seq::<Seq<char>>::empty());
    }
    while j < n
        invariant
            n == keys@.len(),
            j <= n,
            unique_keys(platforms@),
            pairs_to_map(platforms@) == set_url_all(
                pairs_to_map(old(platforms)@),
                views_of(keys@).take(j as int),
                url@,
            ),
        decreases n - j,
    {
        proof {
            assert(views_of(keys@).take(j + 1).drop_last() =~= views_of(keys@).take(j as int));
            assert(views_of(keys@).take(j + 1).last() == keys@[j as int]@);
        }
        upsert_url(platforms, &keys[j], url);
        j += 1;
    }
    proof {
        assert(views_of(keys@).take(n as int) =~= views_of(keys@));
    }
}

/// Records `sgn` for every platform in `keys`.
fn upsert_sigs(platforms: &mut Vec<(String, PlatformArtifact)>, keys: &Vec<String>, sgn: &String)
    requires
        unique_keys(old(platforms)@),
    ensures
        unique_keys(final(platforms)@),
        pairs_to_map(final(platforms)@) == set_sig_all(
            pairs_to_map(old(platforms)@),
            views_of(keys@),
            sgn@,
        ),
{
    let n = keys.len();
    let mut j: usize = 0;
    proof {
        assert(views_of(keys@).take(0) =~= Seq::<Seq<char>>::empty());
    }
    while j < n
        invariant
            n == keys@.len(),
            j <= n,
            unique_keys(platforms@),
            pairs_to_map(platforms@) == set_sig_all(
                pairs_to_map(old(platforms)@),
                views_of(keys@).take(j as int),
                sgn@,
            ),
        decreases n - j,
    {
        proof {
            assert(views_of(keys@).take(j + 1).drop_last() =~= views_of(keys@).take(j as int));
            assert(views_of(keys@).take(j + 1).last() == keys@[j as int]@);
        }
        upsert_sig(platforms, &keys[j], sgn);
        j += 1;
    }
    proof {
        assert(views_of(keys@).take(n as int) =~= views_of(keys@));
    }
}

/// Normalizes a raw release. Returns `None` exactly when one of the three
/// required fields is absent; an unusable asset is skipped, never fatal.
/// `sig_bodies` are the fetched bodies of `signature_urls(raw)`, in order,
/// an empty string standing for a failed fetch; a body the caller did not
/// supply counts as empty too.
pub fn normalize(raw: &RawRelease, sig_bodies: &Vec<String>) -> (r: Option<NormalizedRelease>)
    ensures
        r is Some <==> (raw.tag_name is Some && raw.body is Some && raw.published_at is Some),
        match r {
            Some(rel) => Some(rel@) == spec_normalize(raw@, views_of(sig_bodies@))
                && rel.well_formed(),
            None => spec_normalize(raw@, views_of(sig_bodies@)) is None,
        },
{
    let version = match &raw.tag_name {
        Some(s) => s.clone(),
        None => {
            return None;
        },
    };
    let body = match &raw.body {
        Some(s) => s.clone(),
        None => {
            return None;
        },
    };
    let pub_date = match &raw.published_at {
        Some(s) => s.clone(),
        None => {
            return None;
        },
    };
    let notes = clean_notes(body.as_str()).to_owned();

    let ghost sigs = views_of(sig_bodies@);
    let n_sigs = sig_bodies.len();
    let mut platforms: Vec<(String, PlatformArtifact)> = Vec::new();
    let mut sig_idx: usize = 0;
    let n = raw.assets.len();
    let mut i: usize = 0;
    proof {
        assert(raw@.assets.take(0) =~= Seq::<AssetView>::empty());
        assert(pairs_to_map(platforms@) =~= build_platforms(raw@.assets.take(0), sigs).0);
    }
    while i < n
        invariant
            n == raw.assets@.len(),
            raw@.assets.len() == n,
            i <= n,
            unique_keys(platforms@),
            sigs == views_of(sig_bodies@),
            n_sigs == sig_bodies@.len(),
            sig_idx <= i,
            sig_idx as nat == build_platforms(raw@.assets.take(i as int), sigs).1,
            sig_idx as nat == spec_signature_urls(raw@.assets.take(i as int)).len(),
            pairs_to_map(platforms@) == build_platforms(raw@.assets.take(i as int), sigs).0,
        decreases n - i,
    {
        proof {
            assert(raw@.assets[i as int] == raw.assets@[i as int]@);
            assert(raw@.assets.take(i + 1).drop_last() =~= raw@.assets.take(i as int));
            assert(raw@.assets.take(i + 1).last() == raw@.assets[i as int]);
        }
        let asset = &raw.assets[i];
        match (&asset.name, &asset.browser_download_url) {
            (Some(name), Some(url)) => {
                let ip = installer_platforms(name.as_str());
                if ip.len() > 0 {
                    upsert_urls(&mut platforms, &ip, url);
                } else {
                    let sp = signature_platforms(name.as_str());
                    if sp.len() > 0 {
                        let sig = if sig_idx < n_sigs {
                            let b = sig_bodies[sig_idx].clone();
                            proof {
                                assert(sigs[sig_idx as int] == sig_bodies@[sig_idx as int]@);
                            }
                            b
                        } else {
                            String::new()
                        };
                        upsert_sigs(&mut platforms, &sp, &sig);
                        sig_idx += 1;
                    }
                }
            },
            _ => {},
        }
        i += 1;
    }
    proof {
        assert(raw@.assets.take(n as int) =~= raw@.assets);
    }
    let rel = NormalizedRelease { version, notes, pub_date, platforms };
    proof {
        assert(rel@ =~= spec_normalize(raw@, views_of(sig_bodies@))->0);
    }
    Some(rel)
}

/// A valid raw release none of whose assets matches the suffix table
/// normalizes to a release with an empty platform map, not to `None`.
pub proof fn lemma_no_matching_assets_empty_platforms(raw: RawReleaseView, sigs: Seq<Seq<char>>)
    requires
        raw.tag_name is Some,
        raw.body is Some,
        raw.published_at is Some,
        forall|i: int|
            0 <= i < raw.assets.len() ==> !is_installer_asset(#[trigger] raw.assets[i])
                && !is_sig_asset(raw.assets[i]),
    ensures
        spec_normalize(raw, sigs) is Some,
        spec_normalize(raw, sigs)->0.platforms == Map::<Seq<char>, ArtifactView>::empty(),
{
    lemma_build_unmatched(raw.assets, sigs);
}

/// Assembly over assets that match nothing leaves the map empty.
proof fn lemma_build_unmatched(assets: Seq<AssetView>, sigs: Seq<Seq<char>>)
    requires
        forall|i: int|
            0 <= i < assets.len() ==> !is_installer_asset(#[trigger] assets[i]) && !is_sig_asset(
                assets[i],
            ),
    ensures
        build_platforms(assets, sigs).0 == Map::<Seq<char>, ArtifactView>::empty(),
        build_platforms(assets, sigs).1 == 0,
    decreases assets.len(),
{
    if assets.len() > 0 {
        assert forall|i: int|
            0 <= i < assets.drop_last().len() implies !is_installer_asset(
            #[trigger] assets.drop_last()[i],
        ) && !is_sig_asset(assets.drop_last()[i]) by {
            assert(!is_installer_asset(assets[i]) && !is_sig_asset(assets[i]));
        }
        lemma_build_unmatched(assets.drop_last(), sigs);
        assert(!is_installer_asset(assets[assets.len() - 1]) && !is_sig_asset(
            assets[assets.len() - 1],
        ));
    }
}

} // verus!
