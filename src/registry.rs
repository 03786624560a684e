//! The closed set of plugins the bot knows, and the resolution of the
//! configured plugin names against it.

use vstd::prelude::*;

verus! {

/// A plugin the bot can construct.
#[derive(Clone, Copy, Debug, PartialEq, Eq, Structural)]
pub enum PluginKind {
    Crypto,
    Ctcp,
    Echo,
    Joke,
    RepublicanCalendar,
    Twitch,
    Url,
}

/// The plugin registered under a name, if any. Names match exactly.
pub open spec fn kind_named(name: Seq<char>) -> Option<PluginKind> {
    if name == "crypto"@ {
        Some(PluginKind::Crypto)
    } else if name == "ctcp"@ {
        Some(PluginKind::Ctcp)
    } else if name == "echo"@ {
        Some(PluginKind::Echo)
    } else if name == "joke"@ {
        Some(PluginKind::Joke)
    } else if name == "republican_calendar"@ {
        Some(PluginKind::RepublicanCalendar)
    } else if name == "twitch"@ {
        Some(PluginKind::Twitch)
    } else if name == "url"@ {
        Some(PluginKind::Url)
    } else {
        None
    }
}

/// The name a plugin is registered and reported under.
pub open spec fn spec_kind_name(kind: PluginKind) -> Seq<char> {
    match kind {
        PluginKind::Crypto => "crypto"@,
        PluginKind::Ctcp => "ctcp"@,
        PluginKind::Echo => "echo"@,
        PluginKind::Joke => "joke"@,
        PluginKind::RepublicanCalendar => "republican_calendar"@,
        PluginKind::Twitch => "twitch"@,
        PluginKind::Url => "url"@,
    }
}

impl PluginKind {
    /// The name this plugin is registered under.
    pub fn name(&self) -> (r: &'static str)
        ensures
            r@ == spec_kind_name(*self),
    {
        proof {
            reveal_strlit("crypto");
            reveal_strlit("ctcp");
            reveal_strlit("echo");
            reveal_strlit("joke");
            reveal_strlit("republican_calendar");
            reveal_strlit("twitch");
            reveal_strlit("url");
        }
        match self {
            PluginKind::Crypto => "crypto",
            PluginKind::Ctcp => "ctcp",
            PluginKind::Echo => "echo",
            PluginKind::Joke => "joke",
            PluginKind::RepublicanCalendar => "republican_calendar",
            PluginKind::Twitch => "twitch",
            PluginKind::Url => "url",
        }
    }
}

/// Whether two texts hold the same characters.
pub fn same_text(a: &str, b: &str) -> (r: bool)
    ensures
        r == (a@ == b@),
{
    let n = a.unicode_len();
    if n != b.unicode_len() {
        return false;
    }
    let mut i: usize = 0;
    while i < n
        invariant
            n == a@.len(),
            n == b@.len(),
            i <= n,
            a@.subrange(0, i as int) == b@.subrange(0, i as int),
        decreases n - i,
    {
        if a.get_char(i) != b.get_char(i) {
            return false;
        }
        assert(a@.subrange(0, i + 1) == a@.subrange(0, i as int).push(a@[i as int]));
        assert(b@.subrange(0, i + 1) == b@.subrange(0, i as int).push(b@[i as int]));
        i = i + 1;
    }
    assert(a@ == a@.subrange(0, n as int));
    assert(b@ == b@.subrange(0, n as int));
    true
}

/// The plugin registered under `name`, if any.
pub fn plugin_kind(name: &str) -> (r: Option<PluginKind>)
    ensures
        r == kind_named(name@),
{
    let kinds = [
        PluginKind::Crypto,
        PluginKind::Ctcp,
        PluginKind::Echo,
        PluginKind::Joke,
        PluginKind::RepublicanCalendar,
        PluginKind::Twitch,
        PluginKind::Url,
    ];
    let mut i: usize = 0;
    while i < 7
        invariant
            i <= 7,
            kinds@ == seq![
                PluginKind::Crypto,
                PluginKind::Ctcp,
                PluginKind::Echo,
                PluginKind::Joke,
                PluginKind::RepublicanCalendar,
                PluginKind::Twitch,
                PluginKind::Url,
            ],
            forall|j: int| 0 <= j < i ==> name@ != spec_kind_name(#[trigger] kinds@[j]),
        decreases 7 - i,
    {
        let k = kinds[i];
        if same_text(name, k.name()) {
            return Some(k);
        }
        i = i + 1;
    }
    proof {
        assert(name@ != spec_kind_name(kinds@[0]));
        assert(name@ != spec_kind_name(kinds@[1]));
        assert(name@ != spec_kind_name(kinds@[2]));
        assert(name@ != spec_kind_name(kinds@[3]));
        assert(name@ != spec_kind_name(kinds@[4]));
        assert(name@ != spec_kind_name(kinds@[5]));
        assert(name@ != spec_kind_name(kinds@[6]));
    }
    None
}

/// Every configured name is registered.
pub open spec fn all_known(names: Seq<String>) -> bool {
    forall|i: int| 0 <= i < names.len() ==> kind_named(#[trigger] names[i]@) is Some
}

/// The position of the first configured name that is not registered.
pub open spec fn first_unknown(names: Seq<String>, i: int) -> bool {
    &&& 0 <= i < names.len()
    &&& kind_named(names[i]@) is None
    &&& forall|j: int| 0 <= j < i ==> kind_named(#[trigger] names[j]@) is Some
}

/// A configured plugin name that no plugin is registered under.
#[derive(Clone, Debug, PartialEq, Eq)]
pub struct UnknownPlugin {
    /// Its position in the configured list.
    pub index: usize,
    /// The name as configured.
    pub name: String,
}

/// Resolves the configured plugin names, in their configured order. One
/// unknown name fails the whole resolution, so that startup stops before any
/// plugin is constructed.
pub fn resolve_plugins(names: &Vec<String>) -> (r: Result<Vec<PluginKind>, UnknownPlugin>)
    ensures
        r is Ok <==> all_known(names@),
        r matches Ok(kinds) ==> kinds@.len() == names@.len() && forall|i: int|
            0 <= i < names@.len() ==> kind_named(names@[i]@) == Some(#[trigger] kinds@[i]),
        r matches Err(e) ==> first_unknown(names@, e.index as int) && e.name@ == names@[e.index as int]@,
{
    let mut kinds: Vec<PluginKind> = Vec::with_capacity(names.len());
    let mut i: usize = 0;
    while i < names.len()
        invariant
            i <= names@.len(),
            kinds@.len() == i,
            forall|j: int| 0 <= j < i ==> kind_named(names@[j]@) == Some(#[trigger] kinds@[j]),
        decreases names@.len() - i,
    {
        match plugin_kind(names[i].as_str()) {
            Some(k) => kinds.push(k),
            None => {
                proof {
                    assert forall|j: int| 0 <= j < i implies kind_named(#[trigger] names@[j]@) is Some by {
                        assert(kind_named(names@[j]@) == Some(kinds@[j]));
                    }
                }
                return Err(UnknownPlugin { index: i, name: names[i].clone() });
            },
        }
        i = i + 1;
    }
    proof {
        assert forall|j: int| 0 <= j < names@.len() implies kind_named(#[trigger] names@[j]@) is Some by {
            assert(kind_named(names@[j]@) == Some(kinds@[j]));
        }
    }
    Ok(kinds)
}

} // verus!
