//! Setting up the defaults: the lines that make the keys and the region
//! known to later runs.

use crate::region::{fuzzy_match_region, is_region_outcome, RegionError};
use vstd::prelude::*;
use vstd::string::StringExecFns;

verus! {

/// What the setup writes: the project name of the region, and the lines to
/// append to the profile of a shell.
#[derive(Debug)]
pub struct SetupPlan {
    pub region: String,
    /// Lines for the profile of a POSIX shell.
    pub unix_lines: String,
    /// Lines for the profile of PowerShell.
    pub windows_lines: String,
}

/// The lines that export the keys and the region in a POSIX shell.
pub open spec fn unix_profile_lines(ak: Seq<char>, sk: Seq<char>, region: Seq<char>) -> Seq<char> {
    "\nexport HUAWEICLOUD_SDK_AK=\""@ + ak + "\"\nexport HUAWEICLOUD_SDK_SK=\""@ + sk
        + "\"\nexport HUAWEICLOUD_SDK_REGION=\""@ + region + "\"\n"@
}

/// The lines that set the keys and the region for the user in PowerShell.
pub open spec fn windows_profile_lines(ak: Seq<char>, sk: Seq<char>, region: Seq<char>) -> Seq<
    char,
> {
    "\n[Environment]::SetEnvironmentVariable(\"HUAWEICLOUD_SDK_AK\", \""@ + ak
        + "\", \"User\")\n[Environment]::SetEnvironmentVariable(\"HUAWEICLOUD_SDK_SK\", \""@ + sk
        + "\", \"User\")\n[Environment]::SetEnvironmentVariable(\"HUAWEICLOUD_SDK_REGION\", \""@
        + region + "\", \"User\")\n"@
}

/// Whether `outcome` is what the setup gives for the three answers of the
/// user: the lines for the region that `region` stands for, or the failure to
/// find one.
pub open spec fn is_setup_outcome(
    ak: Seq<char>,
    sk: Seq<char>,
    region: Seq<char>,
    outcome: Result<SetupPlan, RegionError>,
) -> bool {
    match outcome {
        Ok(plan) => {
            &&& is_region_outcome(region, Ok(plan.region@))
            &&& plan.unix_lines@ == unix_profile_lines(ak, sk, plan.region@)
            &&& plan.windows_lines@ == windows_profile_lines(ak, sk, plan.region@)
        },
        Err(e) => is_region_outcome(region, Err(e)),
    }
}

/// Plans the setup from the access key, the secret key and the region that
/// the user gave: finds the project name of the region and writes the lines
/// that make the three known to later runs.
pub fn set_basic_configs(ak: &str, sk: &str, region: &str) -> (r: Result<SetupPlan, RegionError>)
    ensures
        is_setup_outcome(ak@, sk@, region@, r),
{
    let code = match fuzzy_match_region(region) {
        Ok(code) => code,
        Err(e) => {
            return Err(e);
        },
    };
    let mut unix_lines = String::new();
    unix_lines.append("\nexport HUAWEICLOUD_SDK_AK=\"");
    unix_lines.append(ak);
    unix_lines.append("\"\nexport HUAWEICLOUD_SDK_SK=\"");
    unix_lines.append(sk);
    unix_lines.append("\"\nexport HUAWEICLOUD_SDK_REGION=\"");
    unix_lines.append(code.as_str());
    unix_lines.append("\"\n");
    assert(unix_lines@ =~= unix_profile_lines(ak@, sk@, code@));
    let mut windows_lines = String::new();
    windows_lines.append("\n[Environment]::SetEnvironmentVariable(\"HUAWEICLOUD_SDK_AK\", \"");
    windows_lines.append(ak);
    windows_lines.append(
        "\", \"User\")\n[Environment]::SetEnvironmentVariable(\"HUAWEICLOUD_SDK_SK\", \"",
    );
    windows_lines.append(sk);
    windows_lines.append(
        "\", \"User\")\n[Environment]::SetEnvironmentVariable(\"HUAWEICLOUD_SDK_REGION\", \"",
    );
    windows_lines.append(code.as_str());
    windows_lines.append("\", \"User\")\n");
    assert(windows_lines@ =~= windows_profile_lines(ak@, sk@, code@));
    Ok(SetupPlan { region: code, unix_lines, windows_lines })
}

} // verus!
