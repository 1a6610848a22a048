//! Consistency between the database and the repositories on disk: which
//! rows lack their repository and which repositories no row claims.

use vstd::prelude::*;

use crate::text::{chars_of, starts_with, str_eq};
use crate::util::{node_id_of, uri_to_node_id};

verus! {

/// One half-broken reference: `kind` is `article` or `series`; `ref_id`
/// is the row's URI or id, empty for a directory found on disk only.
#[derive(Debug, Clone)]
pub struct Mismatch {
    pub kind: &'static str,
    pub node_id: String,
    pub ref_id: String,
}

#[derive(Debug, Clone)]
pub struct ConsistencyReport {
    /// Articles stored in repositories whose directory is missing.
    pub article_missing_repo: Vec<Mismatch>,
    /// Series with a repository node whose directory is missing.
    pub series_missing_repo: Vec<Mismatch>,
    /// Directories on disk that no row maps to.
    pub orphan_dirs: Vec<Mismatch>,
    /// Directories counted (system and hidden ones are skipped).
    pub total_dirs_scanned: usize,
}

/// An article stored in a repository, and whether its directory exists.
#[derive(Debug, Clone)]
pub struct ArticleRepoState {
    pub at_uri: String,
    pub dir_exists: bool,
}

/// A series with a repository node, and whether its directory exists.
#[derive(Debug, Clone)]
pub struct SeriesRepoState {
    pub series_id: String,
    pub node_id: String,
    pub dir_exists: bool,
}

pub open spec fn mismatch_view(m: Mismatch) -> (Seq<char>, Seq<char>, Seq<char>) {
    (m.kind@, m.node_id@, m.ref_id@)
}

pub open spec fn missing_articles(a: Seq<ArticleRepoState>) -> Seq<(Seq<char>, Seq<char>, Seq<char>)>
    decreases a.len(),
{
    if a.len() == 0 {
        Seq::empty()
    } else {
        missing_articles(a.drop_last()) + if a.last().dir_exists {
            Seq::empty()
        } else {
            seq![("article"@, node_id_of(a.last().at_uri@), a.last().at_uri@)]
        }
    }
}

pub open spec fn missing_series(s: Seq<SeriesRepoState>) -> Seq<(Seq<char>, Seq<char>, Seq<char>)>
    decreases s.len(),
{
    if s.len() == 0 {
        Seq::empty()
    } else {
        missing_series(s.drop_last()) + if s.last().dir_exists {
            Seq::empty()
        } else {
            seq![("series"@, s.last().node_id@, s.last().series_id@)]
        }
    }
}

/// The store's own directories, skipped by the scan.
pub open spec fn skipped_dir(name: Seq<char>) -> bool {
    name == "typst-packages"@ || name == ".tmp"@ || name == ".cache"@ || (name.len() > 0
        && name[0] == '.')
}

/// Whether some row maps to the directory `name`.
pub open spec fn expected_dir(a: Seq<ArticleRepoState>, s: Seq<SeriesRepoState>, name: Seq<char>) -> bool {
    (exists|i: int| 0 <= i < a.len() && node_id_of((#[trigger] a[i]).at_uri@) == name) || (exists|i: int|
        0 <= i < s.len() && (#[trigger] s[i]).node_id@ == name)
}

pub open spec fn orphan_kind(name: Seq<char>) -> Seq<char> {
    if crate::text::has_prefix(name, "series_"@) {
        "series"@
    } else {
        "article"@
    }
}

pub open spec fn orphans(a: Seq<ArticleRepoState>, s: Seq<SeriesRepoState>, dirs: Seq<String>) -> Seq<
    (Seq<char>, Seq<char>, Seq<char>),
>
    decreases dirs.len(),
{
    if dirs.len() == 0 {
        Seq::empty()
    } else {
        let name = dirs.last()@;
        orphans(a, s, dirs.drop_last()) + if skipped_dir(name) || expected_dir(a, s, name) {
            Seq::empty()
        } else {
            seq![(orphan_kind(name), name, Seq::<char>::empty())]
        }
    }
}

pub open spec fn scanned(dirs: Seq<String>) -> nat
    decreases dirs.len(),
{
    if dirs.len() == 0 {
        0
    } else {
        scanned(dirs.drop_last()) + if skipped_dir(dirs.last()@) {
            0nat
        } else {
            1nat
        }
    }
}

fn skipped_dir_exec(name: &str) -> (r: bool)
    ensures
        r == skipped_dir(name@),
{
    let v = chars_of(name);
    str_eq(name, "typst-packages") || str_eq(name, ".tmp") || str_eq(name, ".cache") || (v.len() > 0
        && v[0] == '.')
}

fn expected_dir_exec(a: &Vec<ArticleRepoState>, s: &Vec<SeriesRepoState>, name: &str) -> (r: bool)
    ensures
        r == expected_dir(a@, s@, name@),
{
    let mut i: usize = 0;
    while i < a.len()
        invariant
            i <= a@.len(),
            forall|l: int| 0 <= l < i ==> node_id_of((#[trigger] a@[l]).at_uri@) != name@,
        decreases a@.len() - i,
    {
        let id = uri_to_node_id(a[i].at_uri.as_str());
        if str_eq(id.as_str(), name) {
            return true;
        }
        i = i + 1;
    }
    let mut j: usize = 0;
    while j < s.len()
        invariant
            j <= s@.len(),
            forall|l: int| 0 <= l < a@.len() ==> node_id_of((#[trigger] a@[l]).at_uri@) != name@,
            forall|l: int| 0 <= l < j ==> (#[trigger] s@[l]).node_id@ != name@,
        decreases s@.len() - j,
    {
        if str_eq(s[j].node_id.as_str(), name) {
            return true;
        }
        j = j + 1;
    }
    false
}

/// The report of one reconciliation pass over the rows and the directory
/// names found on disk.
pub fn consistency_report(
    articles: &Vec<ArticleRepoState>,
    series: &Vec<SeriesRepoState>,
    dirs: &Vec<String>,
) -> (r: ConsistencyReport)
    ensures
        r.article_missing_repo@.map_values(|m: Mismatch| mismatch_view(m)) == missing_articles(articles@),
        r.series_missing_repo@.map_values(|m: Mismatch| mismatch_view(m)) == missing_series(series@),
        r.orphan_dirs@.map_values(|m: Mismatch| mismatch_view(m)) == orphans(articles@, series@, dirs@),
        r.total_dirs_scanned == scanned(dirs@),
{
    let mut am: Vec<Mismatch> = Vec::new();
    let mut i: usize = 0;
    while i < articles.len()
        invariant
            i <= articles@.len(),
            am@.map_values(|m: Mismatch| mismatch_view(m)) == missing_articles(articles@.take(i as int)),
        decreases articles@.len() - i,
    {
        assert(articles@.take(i + 1).drop_last() =~= articles@.take(i as int));
        if !articles[i].dir_exists {
            am.push(Mismatch { kind: "article", node_id: uri_to_node_id(articles[i].at_uri.as_str()), ref_id: articles[i].at_uri.clone() });
        }
        i = i + 1;
        assert(am@.map_values(|m: Mismatch| mismatch_view(m)) =~= missing_articles(articles@.take(i as int)));
    }
    assert(articles@.take(i as int) =~= articles@);
    let mut sm: Vec<Mismatch> = Vec::new();
    let mut j: usize = 0;
    while j < series.len()
        invariant
            j <= series@.len(),
            sm@.map_values(|m: Mismatch| mismatch_view(m)) == missing_series(series@.take(j as int)),
        decreases series@.len() - j,
    {
        assert(series@.take(j + 1).drop_last() =~= series@.take(j as int));
        if !series[j].dir_exists {
            sm.push(Mismatch { kind: "series", node_id: series[j].node_id.clone(), ref_id: series[j].series_id.clone() });
        }
        j = j + 1;
        assert(sm@.map_values(|m: Mismatch| mismatch_view(m)) =~= missing_series(series@.take(j as int)));
    }
    assert(series@.take(j as int) =~= series@);
    let mut om: Vec<Mismatch> = Vec::new();
    let mut total: usize = 0;
    let mut k: usize = 0;
    let prefix = chars_of("series_");
    while k < dirs.len()
        invariant
            k <= dirs@.len(),
            prefix@ == "series_"@,
            total == scanned(dirs@.take(k as int)),
            total <= k,
            om@.map_values(|m: Mismatch| mismatch_view(m)) == orphans(articles@, series@, dirs@.take(k as int)),
        decreases dirs@.len() - k,
    {
        assert(dirs@.take(k + 1).drop_last() =~= dirs@.take(k as int));
        assert(dirs@.take(k + 1).last() == dirs@[k as int]);
        let name = dirs[k].as_str();
        if !skipped_dir_exec(name) {
            total = total + 1;
            if !expected_dir_exec(articles, series, name) {
                let nv = chars_of(name);
                let kind = if starts_with(nv.as_slice(), prefix.as_slice()) { "series" } else { "article" };
                om.push(Mismatch { kind, node_id: name.to_owned(), ref_id: String::new() });
            }
        }
        k = k + 1;
        assert(om@.map_values(|m: Mismatch| mismatch_view(m)) =~= orphans(articles@, series@, dirs@.take(k as int)));
    }
    assert(dirs@.take(k as int) =~= dirs@);
    ConsistencyReport { article_missing_repo: am, series_missing_repo: sm, orphan_dirs: om, total_dirs_scanned: total }
}

/// An article is reported as missing its repository exactly when one of
/// its rows says the directory does not exist; each report entry names a
/// row's URI and the node id made from it.
pub proof fn lemma_missing_articles_members(a: Seq<ArticleRepoState>, x: (Seq<char>, Seq<char>, Seq<char>))
    ensures
        missing_articles(a).contains(x) <==> exists|i: int|
            0 <= i < a.len() && !(#[trigger] a[i]).dir_exists && x == ("article"@, node_id_of(a[i].at_uri@), a[i].at_uri@),
    decreases a.len(),
{
    if a.len() > 0 {
        let n = a.len() - 1;
        let pre = a.drop_last();
        lemma_missing_articles_members(pre, x);
        let tail = if a.last().dir_exists {
            Seq::empty()
        } else {
            seq![("article"@, node_id_of(a.last().at_uri@), a.last().at_uri@)]
        };
        assert(missing_articles(a) == missing_articles(pre) + tail);
        if missing_articles(a).contains(x) {
            let k = choose|k: int| 0 <= k < missing_articles(a).len() && missing_articles(a)[k] == x;
            if k < missing_articles(pre).len() {
                assert(missing_articles(pre)[k] == x);
                assert(missing_articles(pre).contains(x));
                let i = choose|i: int| 0 <= i < pre.len() && !(#[trigger] pre[i]).dir_exists && x == ("article"@, node_id_of(pre[i].at_uri@), pre[i].at_uri@);
                assert(a[i] == pre[i]);
            } else {
                assert(!a[n].dir_exists);
            }
        }
        if exists|i: int| 0 <= i < a.len() && !(#[trigger] a[i]).dir_exists && x == ("article"@, node_id_of(a[i].at_uri@), a[i].at_uri@) {
            let i = choose|i: int| 0 <= i < a.len() && !(#[trigger] a[i]).dir_exists && x == ("article"@, node_id_of(a[i].at_uri@), a[i].at_uri@);
            if i < n {
                assert(pre[i] == a[i]);
                let k = choose|k: int| 0 <= k < missing_articles(pre).len() && missing_articles(pre)[k] == x;
                assert((missing_articles(pre) + tail)[k] == x);
            } else {
                assert((missing_articles(pre) + tail)[missing_articles(pre).len() as int] == x);
            }
        }
    }
}

/// A series is reported as missing its repository exactly when one of its
/// rows says the directory does not exist.
pub proof fn lemma_missing_series_members(s: Seq<SeriesRepoState>, x: (Seq<char>, Seq<char>, Seq<char>))
    ensures
        missing_series(s).contains(x) <==> exists|i: int|
            0 <= i < s.len() && !(#[trigger] s[i]).dir_exists && x == ("series"@, s[i].node_id@, s[i].series_id@),
    decreases s.len(),
{
    if s.len() > 0 {
        let n = s.len() - 1;
        let pre = s.drop_last();
        lemma_missing_series_members(pre, x);
        let tail = if s.last().dir_exists {
            Seq::empty()
        } else {
            seq![("series"@, s.last().node_id@, s.last().series_id@)]
        };
        assert(missing_series(s) == missing_series(pre) + tail);
        if missing_series(s).contains(x) {
            let k = choose|k: int| 0 <= k < missing_series(s).len() && missing_series(s)[k] == x;
            if k < missing_series(pre).len() {
                assert(missing_series(pre)[k] == x);
                assert(missing_series(pre).contains(x));
                let i = choose|i: int| 0 <= i < pre.len() && !(#[trigger] pre[i]).dir_exists && x == ("series"@, pre[i].node_id@, pre[i].series_id@);
                assert(s[i] == pre[i]);
            } else {
                assert(!s[n].dir_exists);
            }
        }
        if exists|i: int| 0 <= i < s.len() && !(#[trigger] s[i]).dir_exists && x == ("series"@, s[i].node_id@, s[i].series_id@) {
            let i = choose|i: int| 0 <= i < s.len() && !(#[trigger] s[i]).dir_exists && x == ("series"@, s[i].node_id@, s[i].series_id@);
            if i < n {
                assert(pre[i] == s[i]);
                let k = choose|k: int| 0 <= k < missing_series(pre).len() && missing_series(pre)[k] == x;
                assert((missing_series(pre) + tail)[k] == x);
            } else {
                assert((missing_series(pre) + tail)[missing_series(pre).len() as int] == x);
            }
        }
    }
}

/// A directory is reported as an orphan exactly when it is scanned (not
/// one of the store's own) and no row maps to it; the entry is its kind
/// and name with no reference.
pub proof fn lemma_orphans_members(
    a: Seq<ArticleRepoState>,
    s: Seq<SeriesRepoState>,
    dirs: Seq<String>,
    x: (Seq<char>, Seq<char>, Seq<char>),
)
    ensures
        orphans(a, s, dirs).contains(x) <==> exists|i: int|
            0 <= i < dirs.len() && !skipped_dir((#[trigger] dirs[i])@) && !expected_dir(a, s, dirs[i]@)
                && x == (orphan_kind(dirs[i]@), dirs[i]@, Seq::<char>::empty()),
    decreases dirs.len(),
{
    if dirs.len() > 0 {
        let n = dirs.len() - 1;
        let pre = dirs.drop_last();
        lemma_orphans_members(a, s, pre, x);
        let name = dirs.last()@;
        let tail = if skipped_dir(name) || expected_dir(a, s, name) {
            Seq::empty()
        } else {
            seq![(orphan_kind(name), name, Seq::<char>::empty())]
        };
        assert(orphans(a, s, dirs) == orphans(a, s, pre) + tail);
        if orphans(a, s, dirs).contains(x) {
            let k = choose|k: int| 0 <= k < orphans(a, s, dirs).len() && orphans(a, s, dirs)[k] == x;
            if k < orphans(a, s, pre).len() {
                assert(orphans(a, s, pre)[k] == x);
                assert(orphans(a, s, pre).contains(x));
                let i = choose|i: int| 0 <= i < pre.len() && !skipped_dir((#[trigger] pre[i])@) && !expected_dir(a, s, pre[i]@)
                    && x == (orphan_kind(pre[i]@), pre[i]@, Seq::<char>::empty());
                assert(dirs[i] == pre[i]);
            } else {
                assert(dirs[n]@ == name);
            }
        }
        if exists|i: int| 0 <= i < dirs.len() && !skipped_dir((#[trigger] dirs[i])@) && !expected_dir(a, s, dirs[i]@)
            && x == (orphan_kind(dirs[i]@), dirs[i]@, Seq::<char>::empty()) {
            let i = choose|i: int| 0 <= i < dirs.len() && !skipped_dir((#[trigger] dirs[i])@) && !expected_dir(a, s, dirs[i]@)
                && x == (orphan_kind(dirs[i]@), dirs[i]@, Seq::<char>::empty());
            if i < n {
                assert(pre[i] == dirs[i]);
                let k = choose|k: int| 0 <= k < orphans(a, s, pre).len() && orphans(a, s, pre)[k] == x;
                assert((orphans(a, s, pre) + tail)[k] == x);
            } else {
                assert((orphans(a, s, pre) + tail)[orphans(a, s, pre).len() as int] == x);
            }
        }
    }
}

} // verus!
