//! Local and Tailscale remote status rows (detection only).

use vstd::prelude::*;

verus! {

/// One remote target shown in Settings / Session.
#[derive(Debug, Clone, PartialEq, Eq)]
pub struct RemoteRow {
    pub id: String,
    pub kind: String,
    pub label: String,
}

pub open spec fn remote_view(r: RemoteRow) -> (Seq<char>, Seq<char>, Seq<char>) {
    (r.id@, r.kind@, r.label@)
}

/// This machine, then Tailscale when `which` found a non-empty path.
pub open spec fn remotes(tailscale_which: Option<Seq<char>>) -> Seq<(Seq<char>, Seq<char>, Seq<char>)> {
    let local = seq![("local"@, "local"@, "this machine"@)];
    match tailscale_which {
        Some(p) => if p.len() > 0 {
            local.push(("tailscale"@, "tailscale"@, "Tailscale detected"@))
        } else {
            local
        },
        None => local,
    }
}

/// Always list this machine. Add Tailscale only when `which` found a
/// non-empty path.
pub fn detect_remotes(tailscale_which: Option<&str>) -> (r: Vec<RemoteRow>)
    ensures
        r@.map_values(|x: RemoteRow| remote_view(x)) == remotes(
            match tailscale_which {
                Some(p) => Some(p@),
                None => None,
            },
        ),
{
    let mut rows = vec![
        RemoteRow {
            id: "local".to_owned(),
            kind: "local".to_owned(),
            label: "this machine".to_owned(),
        },
    ];
    match tailscale_which {
        Some(path) => {
            if crate::text::chars_of(path).len() != 0 {
                rows.push(
                    RemoteRow {
                        id: "tailscale".to_owned(),
                        kind: "tailscale".to_owned(),
                        label: "Tailscale detected".to_owned(),
                    },
                );
            }
        },
        None => {},
    }
    assert(rows@.map_values(|x: RemoteRow| remote_view(x)) =~= remotes(
        match tailscale_which {
            Some(p) => Some(p@),
            None => None,
        },
    ));
    rows
}

} // verus!
