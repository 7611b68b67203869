//! Deployment decisions: which external commands a deployment runs, in
//! which order, and with which arguments. The caller performs each command
//! and hands back its outcome; the decisions are made here.

use vstd::prelude::*;
use vstd::string::*;

verus! {

/// One external command to run: its program and its arguments.
pub struct CmdSpec {
    pub program: String,
    pub args: Vec<String>,
}

/// A command that exited unsuccessfully, with the exit code it reported,
/// if any.
pub struct CommandError {
    pub code: Option<i32>,
}

/// Interpret an external command's exit: success is success, anything
/// else carries the exit code out as the failure.
pub fn command_outcome(success: bool, code: Option<i32>) -> (r: Result<(), CommandError>)
    ensures
        r is Ok <==> success,
        r matches Err(e) ==> e.code == code,
{
    if success {
        Ok(())
    } else {
        Err(CommandError { code })
    }
}

/// The build tool's arguments for a variant: a draft build points at the
/// draft base URL and includes drafts and future posts; a production
/// build passes nothing.
pub fn hugo_args(for_draft: bool, base_url: &str) -> (r: Vec<String>)
    ensures
        for_draft ==> r.deep_view() =~= seq!["-b"@, base_url@, "-D"@, "-F"@],
        !for_draft ==> r.deep_view() =~= Seq::<Seq<char>>::empty(),
{
    let mut out: Vec<String> = Vec::new();
    if for_draft {
        out.push(String::from_str("-b"));
        out.push(String::from_str(base_url));
        out.push(String::from_str("-D"));
        out.push(String::from_str("-F"));
    }
    out
}

/// The authenticated URL the publishing repository is cloned from.
pub fn clone_url(username: &str, access_token: &str, org: &str, repo: &str) -> (r: String)
    ensures
        r@ == "https://"@ + username@ + ":"@ + access_token@ + "@github.com/"@ + org@ + "/"@
            + repo@ + ".git"@,
{
    let mut out = String::from_str("https://");
    out.append(username);
    out.append(":");
    out.append(access_token);
    out.append("@github.com/");
    out.append(org);
    out.append("/");
    out.append(repo);
    out.append(".git");
    out
}

fn git_cmd_1(arg0: &str) -> (r: CmdSpec)
    ensures
        r.program@ == "git"@,
        r.args.deep_view() =~= seq![arg0@],
{
    let mut args: Vec<String> = Vec::new();
    args.push(String::from_str(arg0));
    CmdSpec { program: String::from_str("git"), args }
}

fn git_cmd_2(arg0: &str, arg1: &str) -> (r: CmdSpec)
    ensures
        r.program@ == "git"@,
        r.args.deep_view() =~= seq![arg0@, arg1@],
{
    let mut args: Vec<String> = Vec::new();
    args.push(String::from_str(arg0));
    args.push(String::from_str(arg1));
    CmdSpec { program: String::from_str("git"), args }
}

fn git_cmd_3(arg0: &str, arg1: &str, arg2: &str) -> (r: CmdSpec)
    ensures
        r.program@ == "git"@,
        r.args.deep_view() =~= seq![arg0@, arg1@, arg2@],
{
    let mut args: Vec<String> = Vec::new();
    args.push(String::from_str(arg0));
    args.push(String::from_str(arg1));
    args.push(String::from_str(arg2));
    CmdSpec { program: String::from_str("git"), args }
}

/// The git commands that prepare the publishing repository, in order:
/// clone it through the authenticated URL, set the committer's email and
/// name, and, for a draft deployment, check out the draft branch.
pub fn git_deploy_plan(
    username: &str,
    access_token: &str,
    org: &str,
    repo: &str,
    user_email: &str,
    user_name: &str,
    for_draft: bool,
) -> (r: Vec<CmdSpec>)
    ensures
        r@.len() == if for_draft {
            4int
        } else {
            3int
        },
        forall|i: int| 0 <= i < r@.len() ==> r@[i].program@ == "git"@,
        r@[0].args.deep_view() =~= seq![
            "clone"@,
            "https://"@ + username@ + ":"@ + access_token@ + "@github.com/"@ + org@ + "/"@
                + repo@ + ".git"@,
        ],
        r@[1].args.deep_view() =~= seq!["config"@, "user.email"@, user_email@],
        r@[2].args.deep_view() =~= seq!["config"@, "user.name"@, user_name@],
        for_draft ==> r@[3].args.deep_view() =~= seq!["checkout"@, "draft"@],
{
    let mut out: Vec<CmdSpec> = Vec::new();
    let url = clone_url(username, access_token, org, repo);
    let mut clone_args: Vec<String> = Vec::new();
    clone_args.push(String::from_str("clone"));
    clone_args.push(url);
    out.push(CmdSpec { program: String::from_str("git"), args: clone_args });
    out.push(git_cmd_3("config", "user.email", user_email));
    out.push(git_cmd_3("config", "user.name", user_name));
    if for_draft {
        out.push(git_cmd_2("checkout", "draft"));
    }
    out
}

/// The command that stages the copied site for commit.
pub fn git_stage_cmd() -> (r: CmdSpec)
    ensures
        r.program@ == "git"@,
        r.args.deep_view() =~= seq!["add"@, "."@],
{
    git_cmd_2("add", ".")
}

/// The command that commits the staged site.
pub fn git_commit_cmd() -> (r: CmdSpec)
    ensures
        r.program@ == "git"@,
        r.args.deep_view() =~= seq!["commit"@, "-m"@, "Deploy"@],
{
    git_cmd_3("commit", "-m", "Deploy")
}

/// What follows the commit: push when the commit made a change, nothing
/// when there was nothing to commit.
pub fn post_commit_push(commit_made_change: bool) -> (r: Option<CmdSpec>)
    ensures
        commit_made_change <==> r is Some,
        r matches Some(c) ==> c.program@ == "git"@ && c.args.deep_view() =~= seq!["push"@],
{
    if commit_made_change {
        Some(git_cmd_1("push"))
    } else {
        None
    }
}

} // verus!
