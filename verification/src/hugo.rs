//! Resolving the versioned build tool: deciding from a version probe
//! whether a fetch is needed, deriving the release URL, and finding the
//! tool inside a fetched release archive.

use vstd::prelude::*;
use vstd::string::*;
use crate::keys::has_prefix;
use crate::keys::starts_with;

verus! {

/// What probing the existing build tool produced: the command could not be
/// run at all, or it exited with a status and its standard output.
pub enum ProbeOutcome {
    Unavailable,
    Exited { success: bool, code: Option<i32>, stdout: Vec<u8> },
}

/// What the probe decides: keep the existing tool, fetch the requested
/// version, or fail with the probe's exit code.
pub enum FetchDecision {
    UseExisting,
    Fetch,
    Fail(Option<i32>),
}

/// The output a matching tool's version probe starts with: the tool's
/// name, a space, `v`, and the requested version.
pub open spec fn version_probe_prefix_spec(version: &str) -> Seq<u8> {
    "hugo v".spec_bytes() + version.spec_bytes()
}

fn append_bytes(dst: &mut Vec<u8>, src: &Vec<u8>)
    ensures
        final(dst)@ =~= old(dst)@ + src@,
{
    let n = src.len();
    let mut i: usize = 0;
    while i < n
        invariant
            i <= n,
            n == src@.len(),
            dst@ =~= old(dst)@ + src@.take(i as int),
        decreases n - i,
    {
        dst.push(src[i]);
        i = i + 1;
        assert(src@.take(i as int) =~= src@.take(i - 1).push(src@[i - 1]));
        assert(dst@ =~= old(dst)@ + src@.take(i as int));
    }
    assert(src@.take(n as int) =~= src@);
}

/// The bytes a matching version probe's output must start with.
pub fn version_probe_prefix(version: &str) -> (r: Vec<u8>)
    ensures
        r@ =~= version_probe_prefix_spec(version),
{
    let mut out = "hugo v".as_bytes_vec();
    let tail = version.as_bytes_vec();
    append_bytes(&mut out, &tail);
    out
}

/// Whether `h` begins with the bytes of `p`.
pub fn starts_with_bytes(h: &Vec<u8>, p: &Vec<u8>) -> (r: bool)
    ensures
        r == p@.is_prefix_of(h@),
{
    let pn = p.len();
    let hn = h.len();
    if pn > hn {
        return false;
    }
    let mut i: usize = 0;
    while i < pn
        invariant
            i <= pn,
            pn <= hn,
            pn == p@.len(),
            hn == h@.len(),
            forall|j: int| 0 <= j < i ==> h@[j] == p@[j],
        decreases pn - i,
    {
        if h[i] != p[i] {
            return false;
        }
        i = i + 1;
    }
    assert(p@ =~= h@.subrange(0, pn as int));
    true
}

/// Whether a version probe's output names exactly the requested version.
pub fn version_matches(stdout: &Vec<u8>, version: &str) -> (r: bool)
    ensures
        r == version_probe_prefix_spec(version).is_prefix_of(stdout@),
{
    let expected = version_probe_prefix(version);
    starts_with_bytes(stdout, &expected)
}

/// Decide from the version probe whether to fetch: a tool that cannot be
/// probed or reports another version is fetched; one that reports the
/// requested version is kept; a probe that ran and exited unsuccessfully
/// fails the resolution with its exit code.
pub fn fetch_decision(probe: &ProbeOutcome, version: &str) -> (r: FetchDecision)
    ensures
        (*probe) is Unavailable ==> r == FetchDecision::Fetch,
        (*probe) matches ProbeOutcome::Exited { success: false, code, .. } ==> r
            == FetchDecision::Fail(code),
        (*probe) matches ProbeOutcome::Exited { success: true, stdout, .. } ==> r == (
        if version_probe_prefix_spec(version).is_prefix_of(stdout@) {
            FetchDecision::UseExisting
        } else {
            FetchDecision::Fetch
        }),
{
    match probe {
        ProbeOutcome::Unavailable => FetchDecision::Fetch,
        ProbeOutcome::Exited { success, code, stdout } => {
            if *success {
                if version_matches(stdout, version) {
                    FetchDecision::UseExisting
                } else {
                    FetchDecision::Fetch
                }
            } else {
                FetchDecision::Fail(*code)
            }
        },
    }
}

/// The release URL of the requested build-tool version for a platform
/// archive suffix.
pub fn release_url(version: &str, suffix: &str) -> (r: String)
    ensures
        r@ == "https://github.com/gohugoio/hugo/releases/download/v"@ + version@
            + "/hugo_extended_"@ + version@ + "_"@ + suffix@,
{
    let mut out = String::from_str("https://github.com/gohugoio/hugo/releases/download/v");
    out.append(version);
    out.append("/hugo_extended_");
    out.append(version);
    out.append("_");
    out.append(suffix);
    out
}

/// Why no tool came out of a release archive.
#[derive(Debug, PartialEq, Eq, Structural)]
pub enum ArchiveError {
    /// The archive could not be decoded.
    Malformed,
    /// An entry's file name could not be read before the tool was found.
    BadEntryName,
    /// No entry's file name starts with the tool's name.
    ToolNotFound,
}

/// One archive entry: its file name, where one could be read as UTF-8,
/// and its bytes.
pub struct ArchiveEntry {
    pub name: Option<String>,
    pub data: Vec<u8>,
}

/// An archive entry as contracts see it.
pub open spec fn entry_view(e: ArchiveEntry) -> (Option<Seq<char>>, Seq<u8>) {
    (e.name.deep_view(), e.data@)
}

/// The entries of a gzipped tar stream, in order — each its file name and
/// its bytes — or nothing when the stream cannot be decoded.
pub uninterp spec fn tar_gz_entries(z: Seq<u8>) -> Option<Seq<(Option<Seq<char>>, Seq<u8>)>>;

/// Relies on flate2's `GzDecoder` and tar's `Archive`: decoding a gzipped
/// tar stream yields its entries in order, each carrying its file name
/// (where one can be read as UTF-8) and its bytes; a stream that cannot be
/// decoded yields nothing. The result depends on the bytes alone.
#[verifier::external_body]
fn decode_tar_gz(z: &Vec<u8>) -> (r: Option<Vec<ArchiveEntry>>)
    ensures
        r matches Some(es) ==> tar_gz_entries(z@) == Some(
            es@.map_values(|e: ArchiveEntry| entry_view(e)),
        ),
        r is None ==> tar_gz_entries(z@) is None,
{
    let mut out: Vec<ArchiveEntry> = Vec::new();
    let mut ar = tar::Archive::new(flate2::read::GzDecoder::new(z.as_slice()));
    for ent in ar.entries().ok()? {
        let mut f = ent.ok()?;
        let name = f.path().ok().and_then(
            |p| p.file_name().and_then(|n| n.to_str()).map(String::from),
        );
        let mut data = Vec::new();
        std::io::Read::read_to_end(&mut f, &mut data).ok()?;
        out.push(ArchiveEntry { name, data });
    }
    Some(out)
}

/// The tool picked from archive entries: walking in order, the first
/// entry whose file name starts with `hugo`; an unreadable name met
/// earlier rejects the archive, and an archive without a match names no
/// tool.
pub open spec fn picked_tool(es: Seq<(Option<Seq<char>>, Seq<u8>)>) -> Result<
    (Seq<char>, Seq<u8>),
    ArchiveError,
>
    decreases es.len(),
{
    if es.len() == 0 {
        Result::Err(ArchiveError::ToolNotFound)
    } else {
        match es[0].0 {
            Option::None => Result::Err(ArchiveError::BadEntryName),
            Option::Some(nm) => if has_prefix(nm, "hugo"@) {
                Result::Ok((nm, es[0].1))
            } else {
                picked_tool(es.drop_first())
            },
        }
    }
}

/// Walk archive entries in order and take the first whose file name
/// starts with `hugo`.
#[verifier::loop_isolation(false)]
pub fn pick_hugo_entry(entries: Vec<ArchiveEntry>) -> (r: Result<(String, Vec<u8>), ArchiveError>)
    ensures
        r is Ok <==> picked_tool(entries@.map_values(|e: ArchiveEntry| entry_view(e))) is Ok,
        r matches Ok(p) ==> picked_tool(entries@.map_values(|e: ArchiveEntry| entry_view(e)))
            == Result::<(Seq<char>, Seq<u8>), ArchiveError>::Ok((p.0@, p.1@)),
        r matches Err(e) ==> picked_tool(entries@.map_values(|e2: ArchiveEntry| entry_view(e2)))
            == Result::<(Seq<char>, Seq<u8>), ArchiveError>::Err(e),
{
    let ghost orig = entries@.map_values(|e: ArchiveEntry| entry_view(e));
    let mut entries = entries;
    while entries.len() > 0
        invariant
            picked_tool(entries@.map_values(|e: ArchiveEntry| entry_view(e))) == picked_tool(
                orig,
            ),
        decreases entries@.len(),
    {
        let ghost pre = entries@.map_values(|e: ArchiveEntry| entry_view(e));
        let e = entries.remove(0);
        proof {
            assert(pre[0] == entry_view(e));
            assert(pre.drop_first() =~= entries@.map_values(
                |e2: ArchiveEntry| entry_view(e2),
            ));
        }
        let ArchiveEntry { name, data } = e;
        match name {
            None => {
                assert(picked_tool(pre) == Result::<(Seq<char>, Seq<u8>), ArchiveError>::Err(
                    ArchiveError::BadEntryName,
                ));
                return Err(ArchiveError::BadEntryName);
            },
            Some(nm) => {
                if starts_with(nm.as_str(), "hugo") {
                    assert(picked_tool(pre) == Result::<(Seq<char>, Seq<u8>), ArchiveError>::Ok(
                        (nm@, data@),
                    ));
                    return Ok((nm, data));
                }
                assert(picked_tool(pre) == picked_tool(
                    entries@.map_values(|e2: ArchiveEntry| entry_view(e2)),
                ));
            },
        }
    }
    assert(entries@.map_values(|e: ArchiveEntry| entry_view(e)) =~= Seq::<
        (Option<Seq<char>>, Seq<u8>),
    >::empty());
    Err(ArchiveError::ToolNotFound)
}

/// Find the build tool inside a fetched release archive: decode the
/// gzipped tar stream and take the first entry whose file name starts
/// with `hugo`.
pub fn unzip(z: &Vec<u8>) -> (r: Result<(String, Vec<u8>), ArchiveError>)
    ensures
        tar_gz_entries(z@) is None ==> r == Result::<(String, Vec<u8>), ArchiveError>::Err(
            ArchiveError::Malformed,
        ),
        tar_gz_entries(z@) matches Some(vs) ==> {
            &&& (r is Ok <==> picked_tool(vs) is Ok)
            &&& (r matches Ok(p) ==> picked_tool(vs) == Result::<
                (Seq<char>, Seq<u8>),
                ArchiveError,
            >::Ok((p.0@, p.1@)))
            &&& (r matches Err(e) ==> picked_tool(vs) == Result::<
                (Seq<char>, Seq<u8>),
                ArchiveError,
            >::Err(e))
        },
{
    match decode_tar_gz(z) {
        None => Err(ArchiveError::Malformed),
        Some(entries) => pick_hugo_entry(entries),
    }
}

} // verus!
