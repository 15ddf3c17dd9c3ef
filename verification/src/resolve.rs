//! The target resolver's decisions: classifying target strings, deciding
//! which candidate packages contribute to a run, laying out the download
//! batch, and the trust policy applied before a file may be read.
//!
//! The package database, the downloader, and the signature checker are
//! outside collaborators; the functions here take their answers as plain
//! values and are verified for every answer.

use vstd::prelude::*;

use crate::pattern::{
    first_hit_at, hits_any, ledger_after, lemma_hits_congruent, lemma_ledger_after_snoc, Match,
};
use crate::strutil::has_scheme;
use crate::strutil::{contains_scheme, join_slash};

verus! {

/// What one user-supplied target string turned out to be.
#[derive(Copy, Clone, PartialEq, Eq, Structural, Debug)]
pub enum TargetKind {
    /// A package known to the database.
    Package,
    /// A remote url to download.
    RemoteUrl,
    /// A package file that already exists locally.
    LocalFile,
    /// None of the above: a fatal resolution error naming the target.
    Unresolvable,
}

/// Classifies a target string: a name the database resolves wins; otherwise
/// a string holding "://" is a remote url; otherwise a path that exists on
/// disk is a local file; anything else is unresolvable.
pub fn classify_target(found_in_db: bool, target: &str, exists_on_disk: bool) -> (r: TargetKind)
    ensures
        r == (if found_in_db {
            TargetKind::Package
        } else if has_scheme(target@) {
            TargetKind::RemoteUrl
        } else if exists_on_disk {
            TargetKind::LocalFile
        } else {
            TargetKind::Unresolvable
        }),
{
    if found_in_db {
        TargetKind::Package
    } else if contains_scheme(target) {
        TargetKind::RemoteUrl
    } else if exists_on_disk {
        TargetKind::LocalFile
    } else {
        TargetKind::Unresolvable
    }
}

/// The fatal message for an unresolvable target; it names the exact target.
pub fn unresolvable_message(target: &str) -> (r: String)
    ensures
        r@ == "'"@ + target@ + "' is not a package, file or url"@,
{
    let mut r = String::new();
    r.append("'");
    r.append(target);
    r.append("' is not a package, file or url");
    proof {
        assert(r@ =~= "'"@ + target@ + "' is not a package, file or url"@);
    }
    r
}

/// Decides whether a candidate package contributes to the run, by offering
/// its file manifest to the matcher without consuming.
///
/// When not every occurrence is wanted and the matcher is already
/// saturated, the package is excluded without touching the matcher.
/// Otherwise the manifest's paths are offered in order, non-consuming,
/// until one hits a pattern: the package is wanted exactly when some
/// manifest path hits some pattern.
pub fn want_pkg(all: bool, manifest: &Vec<String>, matcher: &mut Match) -> (r: bool)
    requires
        old(matcher).wf(),
    ensures
        final(matcher).wf(),
        final(matcher).patterns() == old(matcher).patterns(),
        final(matcher).is_regex() == old(matcher).is_regex(),
        final(matcher).exact() == old(matcher).exact(),
        (!all && old(matcher).num_matched() == old(matcher).patterns().len()) ==> (!r
            && *final(matcher) == *old(matcher)),
        !(!all && old(matcher).num_matched() == old(matcher).patterns().len()) ==> ({
            let files = manifest.deep_view();
            let m0 = *old(matcher);
            &&& r == exists|j: int| 0 <= j < files.len() && #[trigger] hits_any(m0, files[j])
            &&& forall|j: int|
                first_hit_at(m0, files, j) ==> final(matcher).ledger() == ledger_after(
                    m0,
                    m0.ledger(),
                    files.take(j + 1),
                )
            &&& !r ==> final(matcher).ledger() == ledger_after(m0, m0.ledger(), files)
        }),
{
    if !all && matcher.all_matched() {
        return false;
    }
    let ghost m0 = *matcher;
    let n = manifest.len();
    let mut j: usize = 0;
    while j < n
        invariant
            j <= n,
            n == manifest@.len(),
            m0 == *old(matcher),
            m0.wf(),
            !(!all && m0.num_matched() == m0.patterns().len()),
            matcher.wf(),
            matcher.patterns() == m0.patterns(),
            matcher.is_regex() == m0.is_regex(),
            matcher.exact() == m0.exact(),
            matcher.ledger() == ledger_after(m0, m0.ledger(), manifest.deep_view().take(j as int)),
            forall|k: int| 0 <= k < j ==> !hits_any(m0, #[trigger] manifest.deep_view()[k]),
        decreases n - j,
    {
        let ghost mj = *matcher;
        let ghost files = manifest.deep_view();
        let hit = matcher.is_match(manifest[j].as_str(), false);
        proof {
            lemma_hits_congruent(m0, mj, files[j as int]);
            lemma_ledger_after_snoc(m0, m0.ledger(), files.take(j as int), files[j as int]);
            assert(files.take(j as int).push(files[j as int]) =~= files.take(j + 1));
            assert(matcher.ledger() == ledger_after(m0, m0.ledger(), files.take(j + 1)));
        }
        if hit {
            proof {
                assert(hits_any(m0, files[j as int]));
                assert forall|j2: int| first_hit_at(m0, files, j2) implies j2 == j as int by {
                    if j2 < j as int {
                        assert(!hits_any(m0, files[j2]));
                    } else if j2 > j as int {
                        assert(!hits_any(m0, files[j as int]));
                    }
                }
            }
            return true;
        }
        proof {
            assert(!hits_any(m0, files[j as int]));
        }
        j = j + 1;
    }
    proof {
        assert(manifest.deep_view().take(n as int) =~= manifest.deep_view());
        if exists|j: int|
            0 <= j < manifest.deep_view().len() && #[trigger] hits_any(
                m0,
                manifest.deep_view()[j],
            ) {
            let j = choose|j: int|
                0 <= j < manifest.deep_view().len() && hits_any(m0, manifest.deep_view()[j]);
            assert(!hits_any(m0, manifest.deep_view()[j]));
        }
    }
    false
}

/// Whether an explicitly named database package joins the run: one with an
/// empty (absent) file manifest is always attempted; otherwise its manifest
/// must hit a pattern, as `want_pkg` decides.
pub fn accept_target_package(all: bool, manifest: &Vec<String>, matcher: &mut Match) -> (r: bool)
    requires
        old(matcher).wf(),
    ensures
        final(matcher).wf(),
        final(matcher).patterns() == old(matcher).patterns(),
        final(matcher).is_regex() == old(matcher).is_regex(),
        final(matcher).exact() == old(matcher).exact(),
        manifest@.len() == 0 ==> (r && *final(matcher) == *old(matcher)),
        manifest@.len() > 0 && (!all && old(matcher).num_matched() == old(
            matcher,
        ).patterns().len()) ==> (!r && *final(matcher) == *old(matcher)),
        manifest@.len() > 0 && !(!all && old(matcher).num_matched() == old(
            matcher,
        ).patterns().len()) ==> ({
            let files = manifest.deep_view();
            let m0 = *old(matcher);
            &&& r == exists|j: int| 0 <= j < files.len() && #[trigger] hits_any(m0, files[j])
            &&& forall|j: int|
                first_hit_at(m0, files, j) ==> final(matcher).ledger() == ledger_after(
                    m0,
                    m0.ledger(),
                    files.take(j + 1),
                )
            &&& !r ==> final(matcher).ledger() == ledger_after(m0, m0.ledger(), files)
        }),
{
    if manifest.len() == 0 {
        true
    } else {
        want_pkg(all, manifest, matcher)
    }
}

/// A bare search (neither every occurrence nor the executable filter) keeps
/// only the first candidate package; otherwise all candidates stay.
pub fn truncate_candidates(repo: &mut Vec<String>, all: bool, executable: bool)
    ensures
        (!all && !executable) ==> final(repo)@ == (if old(repo)@.len() <= 1 {
            old(repo)@
        } else {
            old(repo)@.take(1)
        }),
        (all || executable) ==> final(repo)@ == old(repo)@,
{
    if !all && !executable {
        repo.truncate(1);
    }
}

/// Splits the downloaded files into the database-originated batch (the
/// first `repo_count`, in order) and the url-originated rest, for the two
/// different trust policies.
pub fn split_download_batch(downloaded: Vec<String>, repo_count: usize) -> (r: (Vec<String>, Vec<
    String,
>))
    requires
        repo_count <= downloaded@.len(),
    ensures
        r.0@ == downloaded@.take(repo_count as int),
        r.1@ == downloaded@.skip(repo_count as int),
{
    let mut head = downloaded;
    let tail = head.split_off(repo_count);
    (head, tail)
}

/// The signature policy of one provenance class.
#[derive(Copy, Clone, PartialEq, Eq, Structural, Debug)]
pub struct SigPolicy {
    /// Package signatures are checked at all.
    pub package: bool,
    /// A missing signature is tolerated.
    pub package_optional: bool,
}

/// Whether files of this provenance must pass a signature check before they
/// may be read.
pub fn signature_check_required(policy: SigPolicy) -> (r: bool)
    ensures
        r == policy.package,
{
    policy.package
}

/// Whether one file's failed signature check is fatal for the run: a
/// missing signature is forgiven exactly when the policy makes package
/// signatures optional; any other failure always is.
pub fn signature_failure_fatal(policy: SigPolicy, missing: bool) -> (r: bool)
    ensures
        r == !(missing && policy.package_optional),
{
    !(missing && policy.package_optional)
}

/// The download url of a database package: its repository's server and the
/// package's file name, joined with '/'.
pub fn download_url(server: &str, filename: &str) -> (r: String)
    ensures
        r@ == server@ + seq!['/'] + filename@,
{
    join_slash(server, filename)
}

} // verus!
