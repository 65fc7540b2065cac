//! `minipot update`: replacing the tool by its latest GitHub release.

use vstd::prelude::*;
use vstd::string::StringExecFns;
use vstd::string::StrSliceExecFns;
use crate::jbr::HostOs;
use crate::text::{find_equal, first_equal, str_eq, views};

verus! {

pub const GITHUB_REPO: &'static str = "minipot-labs/minipot-cli";

/// `https://api.github.com/repos/{GITHUB_REPO}/releases/latest`
pub fn latest_release_url() -> (r: String)
    ensures
        r@ == "https://api.github.com/repos/"@ + GITHUB_REPO@ + "/releases/latest"@,
{
    let mut r = String::from_str("https://api.github.com/repos/");
    r.append(GITHUB_REPO);
    r.append("/releases/latest");
    r
}

pub open spec fn asset_name_spec(os: HostOs) -> Seq<char> {
    match os {
        HostOs::Windows => "minipot-x86_64-pc-windows-gnu.exe"@,
        HostOs::Unix => "minipot-x86_64-unknown-linux-gnu"@,
    }
}

/// The release asset built for the host.
pub fn asset_name(os: HostOs) -> (r: &'static str)
    ensures
        r@ == asset_name_spec(os),
{
    match os {
        HostOs::Windows => "minipot-x86_64-pc-windows-gnu.exe",
        HostOs::Unix => "minipot-x86_64-unknown-linux-gnu",
    }
}

/// Name of the temporary file the new binary is downloaded to.
pub fn temp_binary_name(os: HostOs) -> (r: &'static str)
    ensures
        r@ == match os {
            HostOs::Windows => "minipot.tmp.exe"@,
            HostOs::Unix => "minipot.tmp"@,
        },
{
    match os {
        HostOs::Windows => "minipot.tmp.exe",
        HostOs::Unix => "minipot.tmp",
    }
}

pub open spec fn strip_v_spec(tag: Seq<char>) -> Seq<char> {
    if tag.len() > 0 && tag[0] == 'v' {
        tag.drop_first()
    } else {
        tag
    }
}

/// A release tag without its leading 'v', if any.
pub fn strip_v(tag: &str) -> (r: &str)
    ensures
        r@ == strip_v_spec(tag@),
{
    let n = tag.unicode_len();
    if n > 0 && tag.get_char(0) == 'v' {
        let r = tag.substring_char(1, n);
        assert(r@ =~= tag@.drop_first());
        r
    } else {
        tag
    }
}

/// What `minipot update` does.
pub enum UpdatePlan {
    /// The latest release is the running version.
    UpToDate { latest: String },
    /// Install this asset of the release.
    Install { asset: usize, latest: String },
    /// The release has no asset for this host.
    MissingAsset { latest: String },
}

/// Compares the latest release (tag `tag`, assets `asset_names`) with the
/// running version `current`: nothing to do when the tag, without its
/// leading 'v', is the running version; otherwise the first asset named
/// for the host, if there is one.
pub fn update_plan(tag: &str, current: &str, asset_names: &Vec<String>, os: HostOs) -> (r: UpdatePlan)
    ensures
        ({
            let latest = strip_v_spec(tag@);
            let i = first_equal(views(asset_names@), asset_name_spec(os));
            if latest == current@ {
                r matches UpdatePlan::UpToDate { latest: l } && l@ == latest
            } else if i >= 0 {
                r matches UpdatePlan::Install { asset, latest: l } && asset as int == i && l@
                    == latest
            } else {
                r matches UpdatePlan::MissingAsset { latest: l } && l@ == latest
            }
        }),
{
    let latest = strip_v(tag);
    if str_eq(latest, current) {
        return UpdatePlan::UpToDate { latest: String::from_str(latest) };
    }
    match find_equal(asset_names, asset_name(os)) {
        Some(i) => UpdatePlan::Install { asset: i, latest: String::from_str(latest) },
        None => UpdatePlan::MissingAsset { latest: String::from_str(latest) },
    }
}

} // verus!
