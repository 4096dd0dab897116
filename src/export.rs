//! The plan of the redistributable bundle: which files go into the archive and
//! under which names.
use vstd::prelude::*;

use crate::artifacts::LibraryArtifact;
use crate::text::{concat, headers_dir, headers_dir_name, join_path, joined, owned};

verus! {

/// One file of the bundle: its name in the archive and the file it is read from.
#[derive(Debug, Clone, PartialEq, Eq)]
pub struct ExportMember {
    pub name: String,
    pub source: String,
}

/// Everything the bundle holds.
#[derive(Debug, Clone, PartialEq, Eq)]
pub struct ExportPlan {
    /// The file name of the archive.
    pub archive_name: String,
    /// The top-level directory of the archive that holds the headers.
    pub headers_member: String,
    /// The directory the headers are copied from, verbatim.
    pub headers_source: String,
    /// The libraries, static ones first.
    pub members: Vec<ExportMember>,
}

pub open spec fn member_view(m: ExportMember) -> (Seq<char>, Seq<char>) {
    (m.name@, m.source@)
}

/// The members for `arts` under the archive directory `dir`, in order.
pub open spec fn members_of(arts: Seq<LibraryArtifact>, dir: Seq<char>) -> Seq<
    (Seq<char>, Seq<char>),
> {
    arts.map_values(
        |a: LibraryArtifact| (dir + "/"@ + a.file_name@, joined(a.dir@, a.file_name@)),
    )
}

fn push_members(out: &mut Vec<ExportMember>, arts: &Vec<LibraryArtifact>, dir: &str)
    ensures
        final(out)@.map_values(|m: ExportMember| member_view(m)) == old(out)@.map_values(
            |m: ExportMember| member_view(m),
        ) + members_of(arts@, dir@),
{
    let prefix = concat(dir, "/");
    let mut i: usize = 0;
    while i < arts.len()
        invariant
            i <= arts.len(),
            prefix@ == dir@ + "/"@,
            out@.map_values(|m: ExportMember| member_view(m)) == old(out)@.map_values(
                |m: ExportMember| member_view(m),
            ) + members_of(arts@, dir@).take(i as int),
        decreases arts.len() - i,
    {
        let a = &arts[i];
        let name = concat(prefix.as_str(), a.file_name.as_str());
        let source = join_path(a.dir.as_str(), a.file_name.as_str());
        let ghost before = out@;
        out.push(ExportMember { name, source });
        assert(out@.map_values(|m: ExportMember| member_view(m)) =~= before.map_values(
            |m: ExportMember| member_view(m),
        ).push(member_view(out@.last())));
        assert(members_of(arts@, dir@).take(i + 1) =~= members_of(arts@, dir@).take(i as int).push(
            members_of(arts@, dir@)[i as int],
        ));
        i = i + 1;
    }
    assert(members_of(arts@, dir@).take(arts.len() as int) =~= members_of(arts@, dir@));
}

/// The bundle of a build: the headers next to the library root, every static
/// artifact under `lib/` and every dynamic one under `dyn/`, by file name.
pub fn export(lib_path: &str, modules: &Vec<LibraryArtifact>, modules2: &Vec<LibraryArtifact>) -> (r:
    ExportPlan)
    ensures
        r.archive_name@ == "vendored.tar.gz"@,
        r.headers_member@ == headers_dir(),
        r.headers_source@ == joined(lib_path@, "../"@ + headers_dir()),
        r.members@.map_values(|m: ExportMember| member_view(m)) == members_of(modules@, "lib"@)
            + members_of(modules2@, "dyn"@),
{
    let headers_member = headers_dir_name();
    let up = concat("../", headers_member.as_str());
    let headers_source = join_path(lib_path, up.as_str());
    let mut members: Vec<ExportMember> = Vec::new();
    assert(members@.map_values(|m: ExportMember| member_view(m)) =~= Seq::empty());
    push_members(&mut members, modules, "lib");
    push_members(&mut members, modules2, "dyn");
    assert(Seq::<(Seq<char>, Seq<char>)>::empty() + members_of(modules@, "lib"@) =~= members_of(
        modules@,
        "lib"@,
    ));
    ExportPlan { archive_name: owned("vendored.tar.gz"), headers_member, headers_source, members }
}

} // verus!
