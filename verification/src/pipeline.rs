use vstd::prelude::*;

use crate::error::Error;
use crate::header::Header;
use crate::header::header_spec;
use crate::text::DocModel;
use crate::text::is_bare_char;
use crate::text::push_char;

verus! {

/// The stages of the build pipeline, in order. Each stage is fatal on
/// failure: nothing is retried and no partial stage is resumed.
#[derive(Clone, Copy, Debug, PartialEq, Eq, Structural)]
pub enum Stage {
    /// Synchronize the vendored engine source.
    SyncVendored,
    /// Produce the dependency's configure tool.
    MakeConfigure,
    /// Run configure with the cache file and the feature-disable flags.
    Configure,
    /// Compile the dependency with host parallelism.
    Compile,
    /// Copy the three static archives into the build output directory.
    StageArchives,
    /// Emit the static and system link directives.
    EmitLinks,
    /// Parse the descriptors and invoke the generator once per header.
    Generate,
    /// Write the root module once.
    WriteRoot,
    /// The pipeline ran to completion.
    Done,
    /// Some stage failed; the whole run is aborted.
    Failed,
}

/// The stage after `s` when `s` succeeds; the two terminal stages stay
/// where they are.
pub open spec fn next_stage(s: Stage) -> Stage {
    match s {
        Stage::SyncVendored => Stage::MakeConfigure,
        Stage::MakeConfigure => Stage::Configure,
        Stage::Configure => Stage::Compile,
        Stage::Compile => Stage::StageArchives,
        Stage::StageArchives => Stage::EmitLinks,
        Stage::EmitLinks => Stage::Generate,
        Stage::Generate => Stage::WriteRoot,
        Stage::WriteRoot => Stage::Done,
        Stage::Done => Stage::Done,
        Stage::Failed => Stage::Failed,
    }
}

/// Advance the pipeline by one stage outcome: success moves to the next
/// stage, failure aborts the run for good.
pub fn advance(stage: Stage, ok: bool) -> (next: Stage)
    ensures
        ok ==> next == next_stage(stage),
        !ok ==> next == Stage::Failed,
{
    if !ok {
        return Stage::Failed;
    }
    match stage {
        Stage::SyncVendored => Stage::MakeConfigure,
        Stage::MakeConfigure => Stage::Configure,
        Stage::Configure => Stage::Compile,
        Stage::Compile => Stage::StageArchives,
        Stage::StageArchives => Stage::EmitLinks,
        Stage::EmitLinks => Stage::Generate,
        Stage::Generate => Stage::WriteRoot,
        Stage::WriteRoot => Stage::Done,
        Stage::Done => Stage::Done,
        Stage::Failed => Stage::Failed,
    }
}

/// A failed pipeline never leaves `Failed`, and a finished one never
/// leaves `Done`: there is no retry and no resumption.
pub proof fn lemma_terminal_stages_absorb()
    ensures
        next_stage(Stage::Failed) == Stage::Failed,
        next_stage(Stage::Done) == Stage::Done,
{
}

// ---------------------------------------------------------------------
// Decimal rendering for the parallelism factor
// ---------------------------------------------------------------------
/// The decimal digit character for `d`.
pub open spec fn dec_digit(d: int) -> char
    recommends
        0 <= d < 10,
{
    (48 + d) as char
}

/// The decimal representation of `n`, most significant digit first.
pub open spec fn dec_rep(n: int) -> Seq<char>
    recommends
        n >= 0,
    decreases n,
{
    if n < 10 {
        seq![dec_digit(n)]
    } else {
        dec_rep(n / 10).push(dec_digit(n % 10))
    }
}

fn digit_char(d: usize) -> (c: char)
    requires
        d < 10,
    ensures
        c == dec_digit(d as int),
{
    (48 + d as u8) as char
}

/// Render `n` in decimal.
pub fn usize_to_string(n: usize) -> (r: String)
    ensures
        r@ == dec_rep(n as int),
    decreases n,
{
    if n < 10 {
        let mut s = String::new();
        push_char(&mut s, digit_char(n));
        proof {
            assert(s@ =~= dec_rep(n as int));
        }
        s
    } else {
        let mut s = usize_to_string(n / 10);
        push_char(&mut s, digit_char(n % 10));
        s
    }
}

// ---------------------------------------------------------------------
// Configure: flags and the flag-keyed cache file
// ---------------------------------------------------------------------
/// A flag character kept as it is in the cache file name; anything else
/// becomes an underscore.
pub open spec fn sanitize_char(c: char) -> char {
    if is_bare_char(c) {
        c
    } else {
        '_'
    }
}

/// A flag, reduced to characters safe in a file name.
pub open spec fn sanitize(s: Seq<char>) -> Seq<char> {
    s.map_values(|c: char| sanitize_char(c))
}

fn sanitize_x(s: &str) -> (r: String)
    ensures
        r@ == sanitize(s@),
{
    let n = s.unicode_len();
    let mut out = String::new();
    let mut i: usize = 0;
    while i < n
        invariant
            i <= n,
            n == s@.len(),
            out@ == sanitize(s@.subrange(0, i as int)),
        decreases n - i,
    {
        let c = s.get_char(i);
        let u = c as u32;
        if (97 <= u && u <= 122) || (65 <= u && u <= 90) || (48 <= u && u <= 57) || c == '_' || c
            == '-' {
            push_char(&mut out, c);
        } else {
            push_char(&mut out, '_');
        }
        i += 1;
        proof {
            assert(out@ =~= sanitize(s@.subrange(0, i as int)));
        }
    }
    proof {
        assert(s@.subrange(0, n as int) =~= s@);
    }
    out
}

/// The flag part of the cache file name: one dash-led sanitized flag
/// after another.
pub open spec fn flags_key(flags: Seq<Seq<char>>) -> Seq<char>
    decreases flags.len(),
{
    if flags.len() == 0 {
        Seq::empty()
    } else {
        seq!['-'] + sanitize(flags.first()) + flags_key(flags.drop_first())
    }
}

/// The configure cache file name, keyed by the flags: reusing a cache
/// across different flag sets would silently serve a stale
/// configuration, so each flag set gets its own cache file.
pub open spec fn cache_name_spec(flags: Seq<Seq<char>>) -> Seq<char> {
    "config"@ + flags_key(flags) + ".cache"@
}

/// The configure cache file name for the given flags.
pub fn cache_file_name(flags: &Vec<String>) -> (r: String)
    ensures
        r@ == cache_name_spec(flags.deep_view()),
{
    let ghost dv = flags.deep_view();
    let mut out = String::from_str("config");
    let mut i: usize = 0;
    proof {
        assert(dv.skip(0) =~= dv);
        assert(out@ + flags_key(dv) =~= "config"@ + flags_key(dv));
    }
    while i < flags.len()
        invariant
            i <= flags.len(),
            flags.deep_view() == dv,
            "config"@ + flags_key(dv) == out@ + flags_key(dv.skip(i as int)),
        decreases flags.len() - i,
    {
        proof {
            assert(dv.skip(i as int).first() == dv[i as int]);
            assert(dv.skip(i as int).drop_first() =~= dv.skip(i + 1));
        }
        let ghost out_pre = out@;
        out.append("-");
        let part = sanitize_x(flags[i].as_str());
        out.append(part.as_str());
        proof {
            assert(out@ =~= out_pre + (seq!['-'] + sanitize(dv[i as int]))) by {
                assert("-"@ =~= seq!['-']) by {
                    reveal_strlit("-");
                }
            }
            assert(out_pre + (seq!['-'] + sanitize(dv[i as int])) + flags_key(dv.skip(i + 1))
                =~= out_pre + ((seq!['-'] + sanitize(dv[i as int])) + flags_key(dv.skip(i + 1))));
        }
        i += 1;
    }
    proof {
        assert(dv.skip(flags.len() as int) =~= Seq::<Seq<char>>::empty());
        assert(flags_key(Seq::<Seq<char>>::empty()) =~= Seq::<char>::empty());
        assert(out@ =~= "config"@ + flags_key(dv));
    }
    out.append(".cache");
    out
}

/// The two fixed feature-disable flags every configure run gets.
pub fn feature_disable_flags() -> (r: Vec<String>)
    ensures
        r.deep_view() =~= seq!["--without-tcltk"@, "--without-python"@],
{
    let mut out: Vec<String> = Vec::new();
    out.push(String::from_str("--without-tcltk"));
    out.push(String::from_str("--without-python"));
    proof {
        assert(out.deep_view() =~= seq!["--without-tcltk"@, "--without-python"@]);
    }
    out
}

/// The full configure argument list: the flag-keyed cache file first,
/// then the feature-disable flags themselves.
pub fn configure_args(flags: &Vec<String>) -> (r: Vec<String>)
    ensures
        r.deep_view() =~= seq!["--cache-file="@ + cache_name_spec(flags.deep_view())] + flags.deep_view(),
{
    let mut out: Vec<String> = Vec::new();
    let mut cache = String::from_str("--cache-file=");
    let name = cache_file_name(flags);
    cache.append(name.as_str());
    out.push(cache);
    let ghost dv = flags.deep_view();
    let mut i: usize = 0;
    while i < flags.len()
        invariant
            i <= flags.len(),
            flags.deep_view() == dv,
            out.deep_view() =~= seq!["--cache-file="@ + cache_name_spec(dv)] + dv.subrange(
                0,
                i as int,
            ),
        decreases flags.len() - i,
    {
        let ghost pre = out.deep_view();
        let item = flags[i].clone();
        proof {
            assert(item@ == dv[i as int]);
        }
        out.push(item);
        proof {
            assert(out.deep_view() =~= pre.push(dv[i as int]));
            assert(pre.push(dv[i as int]) =~= seq!["--cache-file="@ + cache_name_spec(dv)]
                + dv.subrange(0, i + 1));
        }
        i += 1;
    }
    proof {
        assert(dv.subrange(0, flags.len() as int) =~= dv);
    }
    out
}

// ---------------------------------------------------------------------
// Staging and link directives
// ---------------------------------------------------------------------
/// A file name under a directory.
pub open spec fn path_join(dir: Seq<char>, name: Seq<char>) -> Seq<char> {
    dir + "/"@ + name
}

/// A file name under a directory, as a value.
pub fn join_path(dir: &str, name: &str) -> (r: String)
    ensures
        r@ == path_join(dir@, name@),
{
    let mut out = String::from_str(dir);
    out.append("/");
    out.append(name);
    out
}

/// The staging plan: the three static archives the compile stage leaves
/// in the vendored tree, each with its destination in the build output
/// directory. A staged artifact is copied once and never mutated.
pub fn staging_plan(vendor: &str, out: &str) -> (r: Vec<(String, String)>)
    ensures
        r.deep_view() =~= seq![
            (path_join(vendor@, "libgit.a"@), path_join(out@, "libgit.a"@)),
            (path_join(vendor@, "xdiff/lib.a"@), path_join(out@, "libxdiff.a"@)),
            (
                path_join(vendor@, "reftable/libreftable.a"@),
                path_join(out@, "libreftable.a"@),
            ),
        ],
{
    let mut plan: Vec<(String, String)> = Vec::new();
    plan.push((join_path(vendor, "libgit.a"), join_path(out, "libgit.a")));
    plan.push((join_path(vendor, "xdiff/lib.a"), join_path(out, "libxdiff.a")));
    plan.push((join_path(vendor, "reftable/libreftable.a"), join_path(out, "libreftable.a")));
    proof {
        assert(plan.deep_view() =~= seq![
            (path_join(vendor@, "libgit.a"@), path_join(out@, "libgit.a"@)),
            (path_join(vendor@, "xdiff/lib.a"@), path_join(out@, "libxdiff.a"@)),
            (
                path_join(vendor@, "reftable/libreftable.a"@),
                path_join(out@, "libreftable.a"@),
            ),
        ]);
    }
    plan
}

/// The link directives: the search path, the three staged static
/// archives, and the one system compression library.
pub fn link_directives(out: &str) -> (r: Vec<String>)
    ensures
        r.deep_view() =~= seq![
            "cargo:rustc-link-search=native="@ + out@,
            "cargo:rustc-link-lib=static=git"@,
            "cargo:rustc-link-lib=static=xdiff"@,
            "cargo:rustc-link-lib=static=reftable"@,
            "cargo:rustc-link-lib=z"@,
        ],
{
    let mut v: Vec<String> = Vec::new();
    let mut search = String::from_str("cargo:rustc-link-search=native=");
    search.append(out);
    v.push(search);
    v.push(String::from_str("cargo:rustc-link-lib=static=git"));
    v.push(String::from_str("cargo:rustc-link-lib=static=xdiff"));
    v.push(String::from_str("cargo:rustc-link-lib=static=reftable"));
    v.push(String::from_str("cargo:rustc-link-lib=z"));
    proof {
        assert(v.deep_view() =~= seq![
            "cargo:rustc-link-search=native="@ + out@,
            "cargo:rustc-link-lib=static=git"@,
            "cargo:rustc-link-lib=static=xdiff"@,
            "cargo:rustc-link-lib=static=reftable"@,
            "cargo:rustc-link-lib=z"@,
        ]);
    }
    v
}

// ---------------------------------------------------------------------
// Descriptor discovery
// ---------------------------------------------------------------------
/// Whether `name` carries the recognized descriptor extension.
pub open spec fn is_descriptor_name(name: Seq<char>) -> bool {
    name.len() >= 5 && name.subrange(name.len() - 5, name.len() as int) == ".toml"@
}

/// The descriptor name derived from the file name: the stem before the
/// recognized extension.
pub open spec fn stem_of(name: Seq<char>) -> Seq<char>
    recommends
        is_descriptor_name(name),
{
    name.subrange(0, name.len() - 5)
}

/// What discovery makes of a directory listing: each entry is a file
/// name, or nothing where the name is not representable as text. A
/// non-representable name fails with `Filename`, as does a descriptor
/// file with an empty stem; other files are passed over; each surviving
/// descriptor contributes its stem and its file name, in listing order.
pub open spec fn discover_spec(listing: Seq<Option<Seq<char>>>) -> Result<
    Seq<(Seq<char>, Seq<char>)>,
    Error,
>
    decreases listing.len(),
{
    if listing.len() == 0 {
        Ok(Seq::empty())
    } else {
        match listing.first() {
            None => Err(Error::Filename),
            Some(nm) => {
                if !is_descriptor_name(nm) {
                    discover_spec(listing.drop_first())
                } else if nm.len() == 5 {
                    Err(Error::Filename)
                } else {
                    match discover_spec(listing.drop_first()) {
                        Err(e) => Err(e),
                        Ok(t) => Ok(seq![(stem_of(nm), nm)] + t),
                    }
                }
            },
        }
    }
}

/// Discover the descriptors in a directory listing: keep each file with
/// the recognized extension, under the name derived from its stem.
pub fn descriptor_names(listing: &Vec<Option<String>>) -> (r: Result<
    Vec<(String, String)>,
    Error,
>)
    ensures
        discover_spec(listing.deep_view()) matches Err(e) ==> (r matches Err(e2) && e2 == e),
        discover_spec(listing.deep_view()) matches Ok(ps) ==> (r matches Ok(v) && v.deep_view()
            == ps),
{
    let ghost dv = listing.deep_view();
    let mut out: Vec<(String, String)> = Vec::new();
    let mut i: usize = 0;
    proof {
        assert(dv.skip(0) =~= dv);
        if discover_spec(dv) is Ok {
            let ps = discover_spec(dv)->Ok_0;
            assert(out.deep_view() + ps =~= ps);
        }
    }
    #[verifier::loop_isolation(false)]
    while i < listing.len()
        invariant
            i <= listing.len(),
            discover_spec(dv) matches Err(e) ==> discover_spec(dv.skip(i as int)) matches Err(
                e2,
            ) && e2 == e,
            discover_spec(dv) matches Ok(ps) ==> (discover_spec(dv.skip(i as int)) matches Ok(t)
                && ps == out.deep_view() + t),
        decreases listing.len() - i,
    {
        proof {
            assert(dv.skip(i as int).first() == dv[i as int]);
            assert(dv.skip(i as int).drop_first() =~= dv.skip(i + 1));
        }
        match &listing[i] {
            None => {
                proof {
                    assert(discover_spec(dv.skip(i as int)) == Err::<
                        Seq<(Seq<char>, Seq<char>)>,
                        Error,
                    >(Error::Filename));
                }
                return Err(Error::Filename);
            },
            Some(nm) => {
                let n = nm.as_str().unicode_len();
                let mut matched = false;
                if n >= 5 {
                    let suffix = nm.as_str().substring_char(n - 5, n);
                    matched = crate::text::str_eq(suffix, ".toml");
                }
                proof {
                    assert(matched == is_descriptor_name(nm@));
                }
                if matched {
                    if n == 5 {
                        return Err(Error::Filename);
                    }
                    let stem = nm.as_str().substring_char(0, n - 5);
                    let ghost out_pre = out.deep_view();
                    out.push((String::from_str(stem), nm.clone()));
                    proof {
                        assert(out.deep_view() =~= out_pre.push((stem_of(nm@), nm@)));
                        if discover_spec(dv.skip(i + 1)) is Ok {
                            let t = discover_spec(dv.skip(i + 1))->Ok_0;
                            assert(out_pre + (seq![(stem_of(nm@), nm@)] + t) =~= out_pre.push(
                                (stem_of(nm@), nm@),
                            ) + t);
                        }
                    }
                }
            },
        }
        i += 1;
    }
    proof {
        assert(dv.skip(listing.len() as int) =~= Seq::<Option<Seq<char>>>::empty());
        if discover_spec(dv) is Ok {
            assert(out.deep_view() + Seq::<(Seq<char>, Seq<char>)>::empty() =~= out.deep_view());
        }
    }
    Ok(out)
}

// ---------------------------------------------------------------------
// Parsing every discovered descriptor
// ---------------------------------------------------------------------
/// What parsing every descriptor yields: the first failure aborts the
/// whole run, with no partial output retained; otherwise every
/// descriptor's name and model, in order.
pub open spec fn parse_all_spec(sources: Seq<(Seq<char>, Seq<char>)>, prefix: Seq<char>) -> Result<
    Seq<(Seq<char>, DocModel)>,
    Error,
>
    decreases sources.len(),
{
    if sources.len() == 0 {
        Ok(Seq::empty())
    } else {
        match header_spec(sources.first().1, prefix) {
            Err(e) => Err(e),
            Ok(m) => match parse_all_spec(sources.drop_first(), prefix) {
                Err(e) => Err(e),
                Ok(t) => Ok(seq![(sources.first().0, m)] + t),
            },
        }
    }
}

/// Parse every discovered descriptor, each under the shared prefix:
/// fatal on the first parse failure, with nothing retained from the
/// descriptors already parsed.
pub fn parse_all(sources: Vec<(String, String)>, prefix: &str) -> (r: Result<
    Vec<(String, Header)>,
    Error,
>)
    ensures
        parse_all_spec(sources.deep_view(), prefix@) matches Err(e) ==> (r matches Err(e2) && e2
            == e),
        parse_all_spec(sources.deep_view(), prefix@) matches Ok(ms) ==> (r matches Ok(v)
            && v.deep_view() == ms),
{
    let ghost dv = sources.deep_view();
    let mut out: Vec<(String, Header)> = Vec::new();
    let mut rest = sources;
    let mut i: usize = 0;
    proof {
        assert(dv.skip(0) =~= dv);
        if parse_all_spec(dv, prefix@) is Ok {
            let ms = parse_all_spec(dv, prefix@)->Ok_0;
            assert(out.deep_view() + ms =~= ms);
        }
    }
    #[verifier::loop_isolation(false)]
    while i < rest.len()
        invariant
            i <= rest.len(),
            rest.deep_view() == dv,
            parse_all_spec(dv, prefix@) matches Err(e) ==> parse_all_spec(
                dv.skip(i as int),
                prefix@,
            ) matches Err(e2) && e2 == e,
            parse_all_spec(dv, prefix@) matches Ok(ms) ==> (parse_all_spec(
                dv.skip(i as int),
                prefix@,
            ) matches Ok(t) && ms == out.deep_view() + t),
        decreases rest.len() - i,
    {
        proof {
            assert(dv.skip(i as int).first() == dv[i as int]);
            assert(dv.skip(i as int).drop_first() =~= dv.skip(i + 1));
        }
        let name = rest[i].0.clone();
        let h = match Header::new(rest[i].1.as_str(), prefix) {
            Err(e) => {
                return Err(e);
            },
            Ok(h) => h,
        };
        let ghost out_pre = out.deep_view();
        proof {
            assert(name@ == dv[i as int].0);
        }
        out.push((name, h));
        proof {
            let m = h.deep_view();
            assert(out.deep_view() =~= out_pre.push((dv[i as int].0, m)));
            if parse_all_spec(dv.skip(i + 1), prefix@) is Ok {
                let t = parse_all_spec(dv.skip(i + 1), prefix@)->Ok_0;
                assert(out_pre + (seq![(dv[i as int].0, m)] + t) =~= out_pre.push(
                    (dv[i as int].0, m),
                ) + t);
            }
        }
        i += 1;
    }
    proof {
        assert(dv.skip(rest.len() as int) =~= Seq::<(Seq<char>, Seq<char>)>::empty());
        if parse_all_spec(dv, prefix@) is Ok {
            assert(out.deep_view() + Seq::<(Seq<char>, DocModel)>::empty() =~= out.deep_view());
        }
    }
    Ok(out)
}

/// The fixed preprocessor prefix every descriptor is compiled under:
/// the shared feature-disable directives.
pub fn shared_prefix() -> (p: &'static str)
    ensures
        p@ == "#define NO_GETTEXT 1\n#define NO_OPENSSL 1"@,
{
    "#define NO_GETTEXT 1\n#define NO_OPENSSL 1"
}

} // verus!
