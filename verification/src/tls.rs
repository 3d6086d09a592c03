//! Where the server keeps its self-signed certificate and key.
use vstd::prelude::*;
use vstd::string::StringExecFns;
use crate::config::{join_path, join_spec, opt_view, path_separator};

verus! {

/// The path of `file` in the `wayflow/certs` subdirectory of `dir`, or of
/// `.` when there is no such directory.
pub open spec fn cert_file_spec(dir: Option<Seq<char>>, sep: char, file: Seq<char>) -> Seq<char> {
    let base = match dir {
        Some(d) => d,
        None => seq!['.'],
    };
    join_spec(join_spec(join_spec(base, "wayflow"@, sep), "certs"@, sep), file, sep)
}

/// The path of `file` in the `wayflow/certs` subdirectory of `dir` (or of `.`).
pub fn cert_file_path(dir: Option<String>, sep: char, file: &str) -> (r: String)
    ensures
        r@ == cert_file_spec(opt_view(dir), sep, file@),
{
    let base = match dir {
        Some(d) => d,
        None => String::from_str("."),
    };
    proof {
        reveal_strlit(".");
    }
    let w = join_path(base, "wayflow", sep);
    let c = join_path(w, "certs", sep);
    join_path(c, file, sep)
}

/// `dirs::data_local_dir`: the user's local data directory for this
/// platform, if it has one, as text. It depends on the platform and on
/// environment variables, so nothing is stated of it.
#[verifier::external_body]
fn platform_data_local_dir() -> (r: Option<String>) {
    dirs::data_local_dir().map(|p| p.to_string_lossy().into_owned())
}

/// The default certificate and key paths:
/// `<local data dir>/wayflow/certs/server.crt` and `.../server.key`, in the
/// same directory.
pub fn default_cert_paths() -> (r: (String, String))
    ensures
        exists|d: Option<Seq<char>>, sep: char|
            r.0@ == cert_file_spec(d, sep, "server.crt"@) && r.1@ == cert_file_spec(d, sep, "server.key"@),
{
    let sep = path_separator();
    let dir = platform_data_local_dir();
    let dir2 = match &dir {
        Some(d) => Some(d.clone()),
        None => None,
    };
    let ghost gd = opt_view(dir);
    let cert = cert_file_path(dir, sep, "server.crt");
    let key = cert_file_path(dir2, sep, "server.key");
    assert(cert@ == cert_file_spec(gd, sep, "server.crt"@) && key@ == cert_file_spec(gd, sep, "server.key"@));
    (cert, key)
}

} // verus!
