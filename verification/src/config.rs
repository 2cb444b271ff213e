//! Connection profiles, cache settings and profile selection.
//!
//! The file format (TOML) is read outside the library; this module holds
//! the values and the rules that pick and expand a profile.

use vstd::prelude::*;

use crate::env::{expand_env_in, expand_spec, EnvFault};
use crate::error::Error;
use crate::time::{
    duration_in_range, humantime_duration, parse_duration_guarded, DurationParse, Span,
};

verus! {

/// Top-level config: the profile used when none is named, the named
/// profiles (in file order) and the cache settings.
#[derive(Debug, Clone)]
pub struct Config {
    pub default_profile: String,
    pub profiles: Vec<(String, Profile)>,
    pub cache: CacheConfig,
}

/// One named connection profile.
#[derive(Debug, Clone)]
pub struct Profile {
    pub brokers: String,
    pub sasl_mechanism: Option<String>,
    pub sasl_username: Option<String>,
    pub sasl_password: Option<String>,
    pub schema_registry_url: Option<String>,
}

/// A profile's fields as character sequences.
pub struct ProfileView {
    pub brokers: Seq<char>,
    pub sasl_mechanism: Option<Seq<char>>,
    pub sasl_username: Option<Seq<char>>,
    pub sasl_password: Option<Seq<char>>,
    pub schema_registry_url: Option<Seq<char>>,
}

/// The view of an optional string.
pub open spec fn opt_view(o: Option<String>) -> Option<Seq<char>> {
    match o {
        Some(s) => Some(s@),
        None => None,
    }
}

impl View for Profile {
    type V = ProfileView;

    open spec fn view(&self) -> ProfileView {
        ProfileView {
            brokers: self.brokers@,
            sasl_mechanism: opt_view(self.sasl_mechanism),
            sasl_username: opt_view(self.sasl_username),
            sasl_password: opt_view(self.sasl_password),
            schema_registry_url: opt_view(self.schema_registry_url),
        }
    }
}

impl Default for Profile {
    /// A profile with empty brokers and no optional setting.
    fn default() -> (r: Profile)
        ensures
            r.brokers@ == Seq::<char>::empty(),
            r.sasl_mechanism is None,
            r.sasl_username is None,
            r.sasl_password is None,
            r.schema_registry_url is None,
    {
        Profile {
            brokers: String::new(),
            sasl_mechanism: None,
            sasl_username: None,
            sasl_password: None,
            schema_registry_url: None,
        }
    }
}

/// Parquet cache settings.
#[derive(Debug, Clone)]
pub struct CacheConfig {
    /// TTL as a humantime string (e.g. `"1h"`, `"30m"`).
    pub ttl: String,
}

impl Default for CacheConfig {
    /// A TTL of `"1h"`.
    fn default() -> (r: CacheConfig)
        ensures
            r.ttl@ == "1h"@,
    {
        CacheConfig { ttl: default_ttl_str() }
    }
}

impl Default for Config {
    /// No profile, an empty default profile name and the default cache.
    fn default() -> (r: Config)
        ensures
            r.default_profile@ == Seq::<char>::empty(),
            r.profiles@.len() == 0,
            r.cache.ttl@ == "1h"@,
    {
        Config { default_profile: String::new(), profiles: Vec::new(), cache: CacheConfig::default() }
    }
}

/// Profile name used when the file names no `default_profile`.
pub fn default_profile_name() -> (r: String)
    ensures
        r@ == "default"@,
{
    String::from_str("default")
}

/// TTL used when the file names no `[cache] ttl`.
pub fn default_ttl_str() -> (r: String)
    ensures
        r@ == "1h"@,
{
    String::from_str("1h")
}

impl CacheConfig {
    /// The TTL as a span of time.
    pub fn ttl_duration(&self) -> (r: Result<Span, Error>)
        ensures
            !duration_in_range(self.ttl@) ==> (r matches Err(Error::DurationTooLarge(m)) && m@
                == self.ttl@),
            duration_in_range(self.ttl@) ==> match humantime_duration(self.ttl@) {
                Some((secs, nanos)) => r == Ok::<Span, Error>(Span { secs, nanos }),
                None => r matches Err(Error::ConfigDuration(m, _)) && m@ == self.ttl@,
            },
    {
        match parse_duration_guarded(self.ttl.as_str()) {
            DurationParse::Parsed(d) => Ok(d),
            DurationParse::Invalid(e) => Err(Error::ConfigDuration(self.ttl.clone(), e)),
            DurationParse::TooLarge => Err(Error::DurationTooLarge(self.ttl.clone())),
        }
    }
}

/// An optional field after expansion.
pub open spec fn opt_expand(o: Option<Seq<char>>, env: Seq<(String, String)>) -> Result<
    Option<Seq<char>>,
    EnvFault,
> {
    match o {
        None => Ok(None),
        Some(s) => match expand_spec(s, env) {
            Ok(t) => Ok(Some(t)),
            Err(e) => Err(e),
        },
    }
}

/// A profile with every field expanded, fields taken in declaration order;
/// the first field that fails decides the error.
pub open spec fn profile_expansion(p: ProfileView, env: Seq<(String, String)>) -> Result<
    ProfileView,
    EnvFault,
> {
    match expand_spec(p.brokers, env) {
        Err(e) => Err(e),
        Ok(b) => match opt_expand(p.sasl_mechanism, env) {
            Err(e) => Err(e),
            Ok(m) => match opt_expand(p.sasl_username, env) {
                Err(e) => Err(e),
                Ok(u) => match opt_expand(p.sasl_password, env) {
                    Err(e) => Err(e),
                    Ok(w) => match opt_expand(p.schema_registry_url, env) {
                        Err(e) => Err(e),
                        Ok(s) => Ok(
                            ProfileView {
                                brokers: b,
                                sasl_mechanism: m,
                                sasl_username: u,
                                sasl_password: w,
                                schema_registry_url: s,
                            },
                        ),
                    },
                },
            },
        },
    }
}

/// An optional field `b` is the `${ENV}` expansion of `a`: both absent, or
/// both present with `b` the expansion of `a`.
pub open spec fn field_expanded(a: Option<String>, b: Option<String>, env: Seq<(String, String)>) -> bool {
    match (a, b) {
        (None, None) => true,
        (Some(x), Some(y)) => expand_spec(x@, env) == Ok::<Seq<char>, EnvFault>(y@),
        _ => false,
    }
}

/// An optional field expands without fault.
pub open spec fn field_expands(a: Option<String>, env: Seq<(String, String)>) -> bool {
    match a {
        None => true,
        Some(x) => expand_spec(x@, env) is Ok,
    }
}

/// `r` is the result that the profile outcome `o` calls for.
pub open spec fn profile_holds(r: Result<Profile, Error>, o: Result<ProfileView, EnvFault>) -> bool {
    match o {
        Ok(v) => r matches Ok(p) && p@ == v,
        Err(EnvFault::Syntax) => r matches Err(Error::ConfigEnvSyntax),
        Err(EnvFault::Missing(n)) => r matches Err(Error::ConfigEnvMissing(m)) && m@ == n,
    }
}

/// The first profile named `name`.
pub open spec fn find_profile(profiles: Seq<(String, Profile)>, name: Seq<char>) -> Option<Profile>
    decreases profiles.len(),
{
    if profiles.len() == 0 {
        None
    } else if profiles[0].0@ == name {
        Some(profiles[0].1)
    } else {
        find_profile(profiles.drop_first(), name)
    }
}

/// The name `select_profile` looks for.
pub open spec fn wanted_profile(cfg: Config, name: Option<Seq<char>>) -> Seq<char> {
    match name {
        Some(n) => n,
        None => cfg.default_profile@,
    }
}

/// The view of an optional borrowed string.
pub open spec fn name_view(name: Option<&str>) -> Option<Seq<char>> {
    match name {
        Some(n) => Some(n@),
        None => None,
    }
}

/// Expands one optional field.
fn expand_opt(o: &Option<String>, env: &[(String, String)]) -> (r: Result<Option<String>, Error>)
    ensures
        match opt_expand(opt_view(*o), env@) {
            Ok(t) => r matches Ok(x) && opt_view(x) == t,
            Err(EnvFault::Syntax) => r matches Err(Error::ConfigEnvSyntax),
            Err(EnvFault::Missing(n)) => r matches Err(Error::ConfigEnvMissing(m)) && m@ == n,
        },
{
    match o {
        None => Ok(None),
        Some(s) => match expand_env_in(s.as_str(), env) {
            Ok(t) => Ok(Some(t)),
            Err(e) => Err(e),
        },
    }
}

/// Expands `${ENV}` placeholders in every string field of `p`.
pub fn expand_env_in_profile(p: &Profile, env: &[(String, String)]) -> (r: Result<Profile, Error>)
    ensures
        profile_holds(r, profile_expansion(p@, env@)),
        r is Ok <==> expand_spec(p.brokers@, env@) is Ok && field_expands(p.sasl_mechanism, env@)
            && field_expands(p.sasl_username, env@) && field_expands(p.sasl_password, env@)
            && field_expands(p.schema_registry_url, env@),
        match r {
            Ok(q) => {
                &&& expand_spec(p.brokers@, env@) == Ok::<Seq<char>, EnvFault>(q.brokers@)
                &&& field_expanded(p.sasl_mechanism, q.sasl_mechanism, env@)
                &&& field_expanded(p.sasl_username, q.sasl_username, env@)
                &&& field_expanded(p.sasl_password, q.sasl_password, env@)
                &&& field_expanded(p.schema_registry_url, q.schema_registry_url, env@)
            },
            Err(_) => true,
        },
{
    let brokers = match expand_env_in(p.brokers.as_str(), env) {
        Ok(b) => b,
        Err(e) => return Err(e),
    };
    let sasl_mechanism = match expand_opt(&p.sasl_mechanism, env) {
        Ok(v) => v,
        Err(e) => return Err(e),
    };
    let sasl_username = match expand_opt(&p.sasl_username, env) {
        Ok(v) => v,
        Err(e) => return Err(e),
    };
    let sasl_password = match expand_opt(&p.sasl_password, env) {
        Ok(v) => v,
        Err(e) => return Err(e),
    };
    let schema_registry_url = match expand_opt(&p.schema_registry_url, env) {
        Ok(v) => v,
        Err(e) => return Err(e),
    };
    Ok(Profile { brokers, sasl_mechanism, sasl_username, sasl_password, schema_registry_url })
}

/// Why no profile could be selected.
pub enum SelectFault {
    /// No profile has the wanted name.
    Missing(Seq<char>),
    /// Expanding a field failed.
    Env(EnvFault),
}

/// The profile `select_profile` gives, or why it gives none.
pub open spec fn select_spec(cfg: Config, name: Option<Seq<char>>, env: Seq<(String, String)>) -> Result<
    ProfileView,
    SelectFault,
> {
    match find_profile(cfg.profiles@, wanted_profile(cfg, name)) {
        None => Err(SelectFault::Missing(wanted_profile(cfg, name))),
        Some(p) => match profile_expansion(p@, env) {
            Ok(v) => Ok(v),
            Err(e) => Err(SelectFault::Env(e)),
        },
    }
}

/// `r` is the error that the fault `f` calls for.
pub open spec fn fault_holds<T>(r: Result<T, Error>, f: SelectFault) -> bool {
    match f {
        SelectFault::Missing(n) => r matches Err(Error::ConfigProfileMissing(m)) && m@ == n,
        SelectFault::Env(EnvFault::Syntax) => r matches Err(Error::ConfigEnvSyntax),
        SelectFault::Env(EnvFault::Missing(n)) => r matches Err(Error::ConfigEnvMissing(m)) && m@
            == n,
    }
}

/// `r` is the result that the selection outcome `o` calls for.
pub open spec fn select_holds(r: Result<Profile, Error>, o: Result<ProfileView, SelectFault>) -> bool {
    match o {
        Ok(v) => r matches Ok(p) && p@ == v,
        Err(f) => fault_holds(r, f),
    }
}

impl Config {
    /// Resolves a profile by `name` (or by `default_profile`), expanding
    /// `${ENV}` placeholders in its string fields against `env`.
    pub fn select_profile(&self, name: Option<&str>, env: &[(String, String)]) -> (r: Result<
        Profile,
        Error,
    >)
        ensures
            select_holds(r, select_spec(*self, name_view(name), env@)),
    {
        let wanted: String = match name {
            Some(n) => String::from_str(n),
            None => self.default_profile.clone(),
        };
        let mut i: usize = 0;
        assert(self.profiles@.skip(0) =~= self.profiles@);
        while i < self.profiles.len()
            invariant
                i <= self.profiles@.len(),
                wanted@ == wanted_profile(*self, name_view(name)),
                find_profile(self.profiles@, wanted@) == find_profile(
                    self.profiles@.skip(i as int),
                    wanted@,
                ),
            decreases self.profiles@.len() - i,
        {
            assert(self.profiles@.skip(i as int).drop_first() =~= self.profiles@.skip(i + 1));
            if self.profiles[i].0 == wanted {
                return expand_env_in_profile(&self.profiles[i].1, env);
            }
            i = i + 1;
        }
        Err(Error::ConfigProfileMissing(wanted))
    }
}

/// Profile names are distinct, as the keys of the config file's
/// `[profiles]` table are.
pub open spec fn names_distinct(profiles: Seq<(String, Profile)>) -> bool {
    forall|i: int, j: int|
        0 <= i < j < profiles.len() ==> (#[trigger] profiles[i]).0@ != (#[trigger] profiles[j]).0@
}

/// With distinct names the profile found is the one of that name, as in a
/// map keyed by name.
pub proof fn lemma_find_profile_by_name(profiles: Seq<(String, Profile)>, k: int)
    requires
        names_distinct(profiles),
        0 <= k < profiles.len(),
    ensures
        find_profile(profiles, profiles[k].0@) == Some(profiles[k].1),
    decreases profiles.len(),
{
    if k > 0 {
        let t = profiles.drop_first();
        assert(profiles[0].0@ != profiles[k].0@);
        assert(t[k - 1] == profiles[k]);
        assert forall|i: int, j: int| 0 <= i < j < t.len() implies (#[trigger] t[i]).0@ != (
        #[trigger] t[j]).0@ by {
            assert(t[i] == profiles[i + 1] && t[j] == profiles[j + 1]);
        }
        lemma_find_profile_by_name(t, k - 1);
    }
}

/// Expanding a profile expands every field on its own: it succeeds exactly
/// when each field expands, and then each field of the result is the
/// expansion of the same field.
pub proof fn lemma_profile_expansion_fieldwise(p: Profile, env: Seq<(String, String)>)
    ensures
        profile_expansion(p@, env) is Ok <==> expand_spec(p.brokers@, env) is Ok && field_expands(
            p.sasl_mechanism,
            env,
        ) && field_expands(p.sasl_username, env) && field_expands(p.sasl_password, env)
            && field_expands(p.schema_registry_url, env),
        match profile_expansion(p@, env) {
            Ok(v) => {
                &&& expand_spec(p.brokers@, env) == Ok::<Seq<char>, EnvFault>(v.brokers)
                &&& v.sasl_username == match p.sasl_username {
                    Some(u) => Some(expand_spec(u@, env)->Ok_0),
                    None => None::<Seq<char>>,
                }
                &&& v.sasl_password == match p.sasl_password {
                    Some(u) => Some(expand_spec(u@, env)->Ok_0),
                    None => None::<Seq<char>>,
                }
                &&& v.sasl_mechanism == match p.sasl_mechanism {
                    Some(u) => Some(expand_spec(u@, env)->Ok_0),
                    None => None::<Seq<char>>,
                }
                &&& v.schema_registry_url == match p.schema_registry_url {
                    Some(u) => Some(expand_spec(u@, env)->Ok_0),
                    None => None::<Seq<char>>,
                }
            },
            Err(_) => true,
        },
{
}

} // verus!
