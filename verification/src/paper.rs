//! Choosing the Paper server build to run, from the PaperMC builds API.

use vstd::prelude::*;
use vstd::string::StringExecFns;
use crate::text::{append_decimal, decimal};

verus! {

pub const PAPER_API_BASE: &'static str = "https://api.papermc.io/v2/projects/paper";

pub const SERVER_ICON_URL: &'static str =
    "https://minipot-assets.s3.eu-central-1.amazonaws.com/minipot-icon-server.png";

/// Reply of `GET /versions/{version}/builds`.
pub struct BuildsResponse {
    pub builds: Vec<BuildEntry>,
}

/// One build of a Paper version, oldest first in the reply.
pub struct BuildEntry {
    pub build: u32,
    pub channel: String,
    pub downloads: Downloads,
}

pub struct Downloads {
    pub application: ApplicationDownload,
}

/// The server jar of a build.
pub struct ApplicationDownload {
    pub name: String,
    pub sha256: String,
}

/// The build that minipot runs: number, expected digest and download URL.
pub struct PaperBuild {
    pub build: u32,
    pub sha256: String,
    pub url: String,
}

/// `{PAPER_API_BASE}/versions/{version}/builds`
pub open spec fn builds_url_spec(version: Seq<char>) -> Seq<char> {
    PAPER_API_BASE@ + "/versions/"@ + version + "/builds"@
}

/// `{PAPER_API_BASE}/versions/{version}/builds/{build}/downloads/{name}`
pub open spec fn download_url_spec(version: Seq<char>, build: u32, name: Seq<char>) -> Seq<char> {
    builds_url_spec(version) + "/"@ + decimal(build as nat) + "/downloads/"@ + name
}

/// Index of the last build on the stable ("default") channel, or -1.
pub open spec fn last_stable(builds: Seq<BuildEntry>) -> int
    decreases builds.len(),
{
    if builds.len() == 0 {
        -1
    } else if builds.last().channel@ == "default"@ {
        builds.len() - 1
    } else {
        last_stable(builds.drop_last())
    }
}

pub proof fn lemma_last_stable(builds: Seq<BuildEntry>)
    ensures
        -1 <= last_stable(builds) < builds.len(),
        last_stable(builds) >= 0 ==> builds[last_stable(builds)].channel@ == "default"@,
        forall|j: int| last_stable(builds) < j < builds.len() ==> builds[j].channel@ != "default"@,
    decreases builds.len(),
{
    if builds.len() > 0 && builds.last().channel@ != "default"@ {
        lemma_last_stable(builds.drop_last());
        assert forall|j: int| last_stable(builds) < j < builds.len() implies builds[j].channel@
            != "default"@ by {
            if j < builds.len() - 1 {
                assert(builds[j] == builds.drop_last()[j]);
            }
        }
    }
}

/// The builds endpoint for a Minecraft version.
pub fn builds_url(version: &str) -> (r: String)
    ensures
        r@ == builds_url_spec(version@),
{
    let mut r = String::from_str(PAPER_API_BASE);
    r.append("/versions/");
    r.append(version);
    r.append("/builds");
    r
}

/// Picks the most recent stable build of `version`: the last build on the
/// "default" channel, with its digest and download URL.  `None` when the
/// version has no stable build.
pub fn select_latest_build(builds: &Vec<BuildEntry>, version: &str) -> (r: Option<PaperBuild>)
    ensures
        last_stable(builds@) == -1 ==> r is None,
        last_stable(builds@) >= 0 ==> (r matches Some(pb) && {
            let e = builds@[last_stable(builds@)];
            &&& pb.build == e.build
            &&& pb.sha256@ == e.downloads.application.sha256@
            &&& pb.url@ == download_url_spec(version@, e.build, e.downloads.application.name@)
        }),
{
    let n = builds.len();
    let mut i: usize = n;
    assert(builds@.take(n as int) =~= builds@);
    while i > 0
        invariant
            n == builds@.len(),
            i <= n,
            last_stable(builds@) == last_stable(builds@.take(i as int)),
        decreases i,
    {
        let ghost pre = builds@.take(i as int);
        assert(pre.last() == builds@[i - 1]);
        if builds[i - 1].channel == "default".to_string() {
            let e = &builds[i - 1];
            let mut url = builds_url(version);
            url.append("/");
            append_decimal(&mut url, e.build as u64);
            url.append("/downloads/");
            url.append(e.downloads.application.name.as_str());
            return Some(
                PaperBuild { build: e.build, sha256: e.downloads.application.sha256.clone(), url },
            );
        }
        assert(pre.drop_last() =~= builds@.take(i - 1));
        i = i - 1;
    }
    None
}

} // verus!
