//! Configuration roles.
//!
//! A configuration line names one of four path roles — the departments root,
//! the target-list file, the remote origin, the reports root — followed by
//! the sub-path segments that make it up.  The four roles are resolved once
//! per run; a line with an unknown or missing role resolves to `Bad`.

use crate::strutil::concat_all;
use crate::strutil::tokenize;
use vstd::prelude::*;

verus! {

/// One resolved configuration path, tagged with its role.
pub enum Paths {
    Departments(String),
    Targets(String),
    BaseUrl(String),
    Reports(String),
    Bad,
}

/// A role tag, for speaking about which variant a configuration line
/// resolved to.
pub enum Role {
    Departments,
    Targets,
    BaseUrl,
    Reports,
}

/// Whether `p` carries the role `r`.
pub open spec fn has_role(p: Paths, r: Role) -> bool {
    match r {
        Role::Departments => p is Departments,
        Role::Targets => p is Targets,
        Role::BaseUrl => p is BaseUrl,
        Role::Reports => p is Reports,
    }
}

/// The path string a resolved role carries; an unresolved role reads as the
/// fixed fallback.
pub open spec fn path_str(p: Paths) -> Seq<char> {
    match p {
        Paths::Departments(s) => s@,
        Paths::Targets(s) => s@,
        Paths::BaseUrl(s) => s@,
        Paths::Reports(s) => s@,
        Paths::Bad => "bad path"@,
    }
}

/// How a line's segments resolve: the first segment picks the variant, the
/// remaining segments are concatenated onto the base path (the remote origin
/// takes no base path); an empty line or an unknown role gives `Bad`.
pub open spec fn resolves_to(p: Paths, segs: Seq<Seq<char>>, base: Seq<char>) -> bool {
    if segs.len() == 0 {
        p == Paths::Bad
    } else if segs[0] == "Departments"@ {
        p matches Paths::Departments(s) && s@ == base + concat_all(segs.drop_first())
    } else if segs[0] == "Targets"@ {
        p matches Paths::Targets(s) && s@ == base + concat_all(segs.drop_first())
    } else if segs[0] == "BaseUrl"@ {
        p matches Paths::BaseUrl(s) && s@ == concat_all(segs.drop_first())
    } else if segs[0] == "Reports"@ {
        p matches Paths::Reports(s) && s@ == base + concat_all(segs.drop_first())
    } else {
        p == Paths::Bad
    }
}

impl Paths {
    /// Resolves one tokenized configuration line against the base path.
    pub fn from(path: &[String], base_path: &str) -> (r: Paths)
        ensures
            resolves_to(r, path.deep_view(), base_path@),
    {
        if path.len() == 0 {
            return Paths::Bad;
        }
        let head = vstd::slice::slice_index_get(path, 0);
        let tail = crate::strutil::rest(path);
        proof {
            assert(tail.deep_view() =~= path.deep_view().drop_first());
        }
        if crate::strutil::str_eq(head.as_str(), "Departments") {
            Paths::Departments(crate::strutil::join(tail, base_path.to_owned()))
        } else if crate::strutil::str_eq(head.as_str(), "Targets") {
            Paths::Targets(crate::strutil::join(tail, base_path.to_owned()))
        } else if crate::strutil::str_eq(head.as_str(), "BaseUrl") {
            Paths::BaseUrl(crate::strutil::join(tail, String::new()))
        } else if crate::strutil::str_eq(head.as_str(), "Reports") {
            Paths::Reports(crate::strutil::join(tail, base_path.to_owned()))
        } else {
            Paths::Bad
        }
    }

    /// The path string this role carries.
    pub fn get_path(&self) -> (r: String)
        ensures
            r@ == path_str(*self),
    {
        match self {
            Paths::Departments(p) => p.clone(),
            Paths::Reports(p) => p.clone(),
            Paths::Targets(p) => p.clone(),
            Paths::BaseUrl(p) => p.clone(),
            Paths::Bad => "bad path".to_owned(),
        }
    }

    /// The role's path string followed by `path`.
    pub fn make_path(&self, path: String) -> (r: String)
        ensures
            r@ == path_str(*self) + path@,
    {
        self.get_path().concat(path.as_str())
    }

    /// An equal role value.
    pub fn duplicate(&self) -> (r: Paths)
        ensures
            r == *self,
    {
        match self {
            Paths::Departments(p) => Paths::Departments(p.clone()),
            Paths::Reports(p) => Paths::Reports(p.clone()),
            Paths::Targets(p) => Paths::Targets(p.clone()),
            Paths::BaseUrl(p) => Paths::BaseUrl(p.clone()),
            Paths::Bad => Paths::Bad,
        }
    }
}

/// The earliest element of `s` carrying role `r`, or `fallback` when none
/// does.
pub open spec fn first_role_or(s: Seq<Paths>, r: Role, fallback: Paths) -> Paths
    decreases s.len(),
{
    if s.len() == 0 {
        fallback
    } else if has_role(s[0], r) {
        s[0]
    } else {
        first_role_or(s.drop_first(), r, fallback)
    }
}

/// Appending one element changes the fallback, not the earlier elements.
proof fn lemma_first_role_or_push(s: Seq<Paths>, r: Role, fallback: Paths, e: Paths)
    ensures
        first_role_or(s.push(e), r, fallback) == first_role_or(
            s,
            r,
            if has_role(e, r) {
                e
            } else {
                fallback
            },
        ),
    decreases s.len(),
{
    if s.len() == 0 {
        assert(s.push(e).drop_first() =~= Seq::<Paths>::empty());
        assert(s.push(e)[0] == e);
    } else {
        assert(s.push(e)[0] == s[0]);
        assert(s.push(e).drop_first() =~= s.drop_first().push(e));
        lemma_first_role_or_push(s.drop_first(), r, fallback, e);
    }
}

/// The four path roles of one run, each the earliest line of its role, or
/// `Bad` where the configuration named none.
pub struct ConfigPath {
    pub departments: Paths,
    pub targets: Paths,
    pub base_url: Paths,
    pub reports: Paths,
}

impl ConfigPath {
    /// Resolves the four roles from the parsed configuration lines.
    pub fn build(paths: Vec<Paths>) -> (r: ConfigPath)
        ensures
            r.departments == first_role_or(paths@, Role::Departments, Paths::Bad),
            r.targets == first_role_or(paths@, Role::Targets, Paths::Bad),
            r.base_url == first_role_or(paths@, Role::BaseUrl, Paths::Bad),
            r.reports == first_role_or(paths@, Role::Reports, Paths::Bad),
    {
        let ghost orig = paths@;
        let mut paths = paths;
        let mut d = Paths::Bad;
        let mut t = Paths::Bad;
        let mut b = Paths::Bad;
        let mut r = Paths::Bad;
        loop
            invariant_except_break
                first_role_or(orig, Role::Departments, Paths::Bad) == first_role_or(
                    paths@,
                    Role::Departments,
                    d,
                ),
                first_role_or(orig, Role::Targets, Paths::Bad) == first_role_or(
                    paths@,
                    Role::Targets,
                    t,
                ),
                first_role_or(orig, Role::BaseUrl, Paths::Bad) == first_role_or(
                    paths@,
                    Role::BaseUrl,
                    b,
                ),
                first_role_or(orig, Role::Reports, Paths::Bad) == first_role_or(
                    paths@,
                    Role::Reports,
                    r,
                ),
            ensures
                d == first_role_or(orig, Role::Departments, Paths::Bad),
                t == first_role_or(orig, Role::Targets, Paths::Bad),
                b == first_role_or(orig, Role::BaseUrl, Paths::Bad),
                r == first_role_or(orig, Role::Reports, Paths::Bad),
            decreases paths@.len(),
        {
            let ghost pre = paths@;
            match paths.pop() {
                None => {
                    break;
                },
                Some(path) => {
                    proof {
                        assert(pre =~= paths@.push(pre.last()));
                        lemma_first_role_or_push(paths@, Role::Departments, d, pre.last());
                        lemma_first_role_or_push(paths@, Role::Targets, t, pre.last());
                        lemma_first_role_or_push(paths@, Role::BaseUrl, b, pre.last());
                        lemma_first_role_or_push(paths@, Role::Reports, r, pre.last());
                    }
                    let ghost pv = path;
                    match path {
                        Paths::Departments(x) => {
                            d = Paths::Departments(x);
                            proof {
                                assert(d == pv);
                            }
                        },
                        Paths::Targets(x) => {
                            t = Paths::Targets(x);
                            proof {
                                assert(t == pv);
                            }
                        },
                        Paths::BaseUrl(x) => {
                            b = Paths::BaseUrl(x);
                            proof {
                                assert(b == pv);
                            }
                        },
                        Paths::Reports(x) => {
                            r = Paths::Reports(x);
                            proof {
                                assert(r == pv);
                            }
                        },
                        Paths::Bad => {},
                    }
                },
            }
        }
        ConfigPath { departments: d, targets: t, base_url: b, reports: r }
    }

    /// The separator characters of a configuration line.
    pub fn config_separators() -> (r: Vec<char>)
        ensures
            r@ =~= seq![';', ','],
    {
        let mut v: Vec<char> = Vec::new();
        v.push(';');
        v.push(',');
        v
    }

    /// Resolves every configuration line: each is tokenized at `;` and `,`
    /// and turned into its role.
    pub fn prep_paths(base_path: &str, lines: &Vec<String>) -> (r: Vec<Paths>)
        ensures
            r@.len() == lines@.len(),
            forall|j: int|
                0 <= j < lines@.len() ==> resolves_to(
                    r@[j],
                    tokenize(lines@[j]@, seq![';', ','], Seq::empty()),
                    base_path@,
                ),
    {
        let seps = ConfigPath::config_separators();
        let mut r: Vec<Paths> = Vec::new();
        let mut i: usize = 0;
        while i < lines.len()
            invariant
                i <= lines@.len(),
                seps@ =~= seq![';', ','],
                r@.len() == i,
                forall|j: int|
                    0 <= j < i ==> resolves_to(
                        r@[j],
                        tokenize(lines@[j]@, seq![';', ','], Seq::empty()),
                        base_path@,
                    ),
            decreases lines@.len() - i,
        {
            let line = vstd::slice::slice_index_get(lines.as_slice(), i);
            let toks = crate::strutil::split_line(line.as_str(), &seps);
            let tok_slice = toks.as_slice();
            proof {
                assert(tok_slice.deep_view() =~= toks.deep_view());
            }
            r.push(Paths::from(tok_slice, base_path));
            i = i + 1;
        }
        r
    }
}

} // verus!
