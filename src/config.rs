use vstd::prelude::*;
use vstd::string::*;

use crate::error::RemoteGitHackDumpError;
use crate::objects::strings_view;

verus! {

#[verifier::external_type_specification]
#[verifier::external_body]
pub struct ExConfigParseError(gix_config::parse::Error);

/// A section header of a config file: `[name "subsection"]`.
#[derive(Debug)]
pub struct SectionHeader {
    pub name: String,
    pub subsection: Option<String>,
}

/// The view of an optional string.
pub open spec fn opt_view(o: Option<String>) -> Option<Seq<char>> {
    match o {
        Some(s) => Some(s@),
        None => None,
    }
}

/// The view of the section headers of a config file.
pub open spec fn headers_view(v: Seq<Option<SectionHeader>>) -> Seq<
    Option<(Seq<char>, Option<Seq<char>>)>,
> {
    v.map_values(
        |h: Option<SectionHeader>|
            match h {
                Some(h) => Some((h.name@, opt_view(h.subsection))),
                None => None,
            },
    )
}

/// The section headers of a config file in file order, each as its name and
/// subsection name, or `None` where the file is not well formed.
pub uninterp spec fn config_headers_of(config: Seq<u8>) -> Option<
    Seq<Option<(Seq<char>, Option<Seq<char>>)>>,
>;

/// Relies on gix_config's `Events::from_bytes`, then the header of each
/// section: the sections, their names and subsection names depend on the
/// file's bytes alone.
#[verifier::external_body]
fn config_section_headers(config: &[u8]) -> (r: Result<
    Vec<Option<SectionHeader>>,
    gix_config::parse::Error,
>)
    ensures
        r is Ok ==> config_headers_of(config@) == Some(headers_view(r->Ok_0@)),
        r is Err ==> config_headers_of(config@) is None,
{
    match gix_config::parse::Events::from_bytes(config, None) {
        Ok(events) => Ok(events.sections().map(|s| match s.header() {
            gix_config::parse::EventRef::SectionHeader { name, subsection_name, .. } => Some(
                SectionHeader { name: name.to_string(), subsection: subsection_name.map(|n| n.to_string()) },
            ),
            _ => None,
        }).collect()),
        Err(e) => Err(e),
    }
}

/// The branch names that a config's section headers declare: the subsection
/// of every `branch` section, in file order, duplicates kept. `None` where a
/// `branch` section has no subsection.
pub open spec fn branch_names(hs: Seq<Option<(Seq<char>, Option<Seq<char>>)>>) -> Option<
    Seq<Seq<char>>,
>
    decreases hs.len(),
{
    if hs.len() == 0 {
        Some(Seq::empty())
    } else {
        match branch_names(hs.drop_last()) {
            None => None,
            Some(rest) => match hs.last() {
                Some((name, sub)) => if name == "branch"@ {
                    match sub {
                        Some(s) => Some(rest.push(s)),
                        None => None,
                    }
                } else {
                    Some(rest)
                },
                None => Some(rest),
            },
        }
    }
}

/// What reading the branch names of a config file gives.
pub open spec fn config_branch_names(config: Seq<u8>) -> Option<Seq<Seq<char>>> {
    match config_headers_of(config) {
        Some(hs) => branch_names(hs),
        None => None,
    }
}

proof fn lemma_branch_names_none_extends(hs: Seq<Option<(Seq<char>, Option<Seq<char>>)>>, k: int)
    requires
        0 <= k <= hs.len(),
        branch_names(hs.take(k)) is None,
    ensures
        branch_names(hs) is None,
    decreases hs.len() - k,
{
    if k < hs.len() {
        assert(hs.take(k + 1).drop_last() =~= hs.take(k));
        lemma_branch_names_none_extends(hs, k + 1);
    } else {
        assert(hs.take(k) =~= hs);
    }
}

/// The branch names declared by a list of section headers: the subsection
/// of every `branch` section, in order. A `branch` section without a
/// subsection makes the config malformed.
pub fn branch_names_from_headers(headers: &Vec<Option<SectionHeader>>) -> (r: Result<
    Vec<String>,
    RemoteGitHackDumpError,
>)
    ensures
        match branch_names(headers_view(headers@)) {
            Some(names) => r is Ok && strings_view(r->Ok_0@) == names,
            None => r is Err && r->Err_0 == RemoteGitHackDumpError::GixConfigParseError,
        },
{
    let branch = String::from_str("branch");
    proof {
        reveal_strlit("branch");
    }
    let mut names: Vec<String> = Vec::new();
    let n = headers.len();
    let mut i: usize = 0;
    while i < n
        invariant
            n == headers@.len(),
            i <= n,
            branch@ == "branch"@,
            branch_names(headers_view(headers@).take(i as int)) == Some(strings_view(names@)),
        decreases n - i,
    {
        proof {
            let hv = headers_view(headers@);
            assert(hv.take(i as int + 1).drop_last() =~= hv.take(i as int));
        }
        match &headers[i] {
            Some(h) => {
                if h.name == branch {
                    match &h.subsection {
                        Some(s) => {
                            names.push(s.clone());
                        },
                        None => {
                            proof {
                                lemma_branch_names_none_extends(
                                    headers_view(headers@),
                                    i as int + 1,
                                );
                            }
                            return Err(RemoteGitHackDumpError::GixConfigParseError);
                        },
                    }
                }
            },
            None => {},
        }
        proof {
            assert(strings_view(names@) =~= branch_names(
                headers_view(headers@).take(i as int + 1),
            )->Some_0);
        }
        i = i + 1;
    }
    proof {
        assert(headers_view(headers@).take(n as int) =~= headers_view(headers@));
    }
    Ok(names)
}

/// The branch names declared in a config file, in file order, duplicates
/// kept.
pub fn parse_branches(config: &[u8]) -> (r: Result<Vec<String>, RemoteGitHackDumpError>)
    ensures
        match config_branch_names(config@) {
            Some(names) => r is Ok && strings_view(r->Ok_0@) == names,
            None => r is Err && r->Err_0 == RemoteGitHackDumpError::GixConfigParseError,
        },
{
    match config_section_headers(config) {
        Ok(headers) => branch_names_from_headers(&headers),
        Err(_) => Err(RemoteGitHackDumpError::GixConfigParseError),
    }
}

} // verus!
