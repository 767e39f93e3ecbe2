//! The registry of language servers, and how a file finds its server.

use crate::json::Json;
use crate::paths;
use crate::paths::extension_of;
use crate::strings::{chars_of, same_text};
use std::collections::HashMap;
use std::path::PathBuf;
use std::time::Duration;
use vstd::prelude::*;

verus! {

/// Description of a single language server and the files it claims.
#[derive(Debug, Clone)]
pub struct ServerConfig {
    pub language_id: String,
    pub command: String,
    pub args: Vec<String>,
    pub env: HashMap<String, String>,
    pub file_extensions: Vec<String>,
    pub initialization_options: Option<Json>,
    pub timeout_secs: Option<u64>,
}

/// The full registry of configured language servers.
#[derive(Debug, Clone)]
pub struct Config {
    pub servers: Vec<ServerConfig>,
}

/// How many nanoseconds a time span has.
pub uninterp spec fn nanoseconds(span: Duration) -> nat;

/// `Duration::from_secs`: the span of `secs` whole seconds.
pub assume_specification[ Duration::from_secs ](secs: u64) -> (r: Duration)
    ensures
        nanoseconds(r) == secs as nat * 1_000_000_000,
;

impl ServerConfig {
    /// How many seconds a request may take: a minute where nothing is configured.
    pub open spec fn seconds(&self) -> u64 {
        match self.timeout_secs {
            Some(secs) => secs,
            None => 60,
        }
    }

    /// How many seconds a request may take.
    pub fn timeout_seconds(&self) -> (r: u64)
        ensures
            r == self.seconds(),
    {
        match self.timeout_secs {
            Some(secs) => secs,
            None => 60,
        }
    }

    /// How long a request may take.
    pub fn timeout(&self) -> (r: Duration)
        ensures
            nanoseconds(r) == self.seconds() as nat * 1_000_000_000,
    {
        Duration::from_secs(self.timeout_seconds())
    }

    /// The server claims files with this extension, whatever the case of ASCII letters.
    pub open spec fn claims(&self, ext: Seq<char>) -> bool {
        exists|k: int|
            0 <= k < self.file_extensions@.len() && same_but_ascii_case(
                #[trigger] self.file_extensions@[k]@,
                ext,
            )
    }

    /// Whether the server claims files with this extension.
    pub fn claims_extension(&self, ext: &str) -> (r: bool)
        ensures
            r == self.claims(ext@),
    {
        let mut k: usize = 0;
        while k < self.file_extensions.len()
            invariant
                k <= self.file_extensions@.len(),
                forall|j: int|
                    0 <= j < k ==> !same_but_ascii_case(
                        #[trigger] self.file_extensions@[j]@,
                        ext@,
                    ),
            decreases self.file_extensions.len() - k,
        {
            if equal_but_ascii_case(self.file_extensions[k].as_str(), ext) {
                assert(same_but_ascii_case(self.file_extensions@[k as int]@, ext@));
                return true;
            }
            k = k + 1;
        }
        false
    }
}

/// `c` in lower case, where it is an ASCII letter.
pub open spec fn ascii_lower(c: char) -> char {
    if 'A' <= c <= 'Z' {
        (c as u8 + 32) as u8 as char
    } else {
        c
    }
}

/// Two texts that differ at most in the case of ASCII letters.
pub open spec fn same_but_ascii_case(a: Seq<char>, b: Seq<char>) -> bool {
    a.len() == b.len() && forall|i: int|
        0 <= i < a.len() ==> ascii_lower(#[trigger] a[i]) == ascii_lower(b[i])
}

fn lower(c: char) -> (r: char)
    ensures
        r == ascii_lower(c),
{
    if 'A' <= c && c <= 'Z' {
        (c as u8 + 32) as char
    } else {
        c
    }
}

/// Whether two texts differ at most in the case of ASCII letters.
pub fn equal_but_ascii_case(a: &str, b: &str) -> (r: bool)
    ensures
        r == same_but_ascii_case(a@, b@),
{
    let x = chars_of(a);
    let y = chars_of(b);
    if x.len() != y.len() {
        return false;
    }
    let mut i: usize = 0;
    while i < x.len()
        invariant
            x@ == a@,
            y@ == b@,
            x@.len() == y@.len(),
            i <= x@.len(),
            forall|j: int| 0 <= j < i ==> ascii_lower(#[trigger] x@[j]) == ascii_lower(y@[j]),
        decreases x.len() - i,
    {
        if lower(x[i]) != lower(y[i]) {
            assert(ascii_lower(a@[i as int]) != ascii_lower(b@[i as int]));
            return false;
        }
        i = i + 1;
    }
    true
}

/// The first server, from number `from` on, that claims an extension.
pub open spec fn first_claiming(servers: Seq<ServerConfig>, ext: Seq<char>, from: int) -> Option<int>
    decreases servers.len() - from,
{
    if from < 0 || from >= servers.len() {
        None
    } else if servers[from].claims(ext) {
        Some(from)
    } else {
        first_claiming(servers, ext, from + 1)
    }
}

/// The first server, from number `from` on, with a language id.
pub open spec fn first_speaking(servers: Seq<ServerConfig>, id: Seq<char>, from: int) -> Option<int>
    decreases servers.len() - from,
{
    if from < 0 || from >= servers.len() {
        None
    } else if servers[from].language_id@ == id {
        Some(from)
    } else {
        first_speaking(servers, id, from + 1)
    }
}

/// The number of the server for a file: the first that claims its extension.
pub open spec fn server_for_path(servers: Seq<ServerConfig>, path: Seq<u8>) -> Option<int> {
    match paths::extension_text(path) {
        Some(ext) => first_claiming(servers, ext, 0),
        None => None,
    }
}

/// `found` is the server with that number.
pub open spec fn is_server(
    found: Option<&ServerConfig>,
    servers: Seq<ServerConfig>,
    number: Option<int>,
) -> bool {
    match number {
        Some(i) => 0 <= i < servers.len() && found == Some(&servers[i]),
        None => found is None,
    }
}

impl Default for Config {
    /// The empty registry.
    fn default() -> (r: Self)
        ensures
            r.servers@.len() == 0,
    {
        Config { servers: Vec::new() }
    }
}

impl Config {
    /// The registry to use: the loaded one, where one was asked for and could be loaded,
    /// and the built-in one otherwise.
    pub fn load_or_builtin<E>(loaded: Option<Result<Config, E>>, builtin: Config) -> (r: Config)
        ensures
            r == (match loaded {
                Some(Ok(config)) => config,
                _ => builtin,
            }),
    {
        match loaded {
            Some(Ok(config)) => config,
            _ => builtin,
        }
    }

    /// The first server that claims files with this extension.
    pub fn language_for_ext(&self, ext: &str) -> (r: Option<&ServerConfig>)
        ensures
            is_server(r, self.servers@, first_claiming(self.servers@, ext@, 0)),
    {
        let mut i: usize = 0;
        while i < self.servers.len()
            invariant
                i <= self.servers@.len(),
                first_claiming(self.servers@, ext@, 0) == first_claiming(
                    self.servers@,
                    ext@,
                    i as int,
                ),
            decreases self.servers.len() - i,
        {
            if self.servers[i].claims_extension(ext) {
                return Some(&self.servers[i]);
            }
            i = i + 1;
        }
        None
    }

    /// The server for a file: the first that claims its extension.
    pub fn language_for_path(&self, path: &PathBuf) -> (r: Option<&ServerConfig>)
        ensures
            is_server(
                r,
                self.servers@,
                server_for_path(self.servers@, paths::path_bytes(*path)),
            ),
    {
        match extension_of(path) {
            Some(ext) => self.language_for_ext(ext.as_str()),
            None => None,
        }
    }

    /// The first server with this language id.
    pub fn language(&self, language_id: &str) -> (r: Option<&ServerConfig>)
        ensures
            is_server(r, self.servers@, first_speaking(self.servers@, language_id@, 0)),
    {
        let mut i: usize = 0;
        while i < self.servers.len()
            invariant
                i <= self.servers@.len(),
                first_speaking(self.servers@, language_id@, 0) == first_speaking(
                    self.servers@,
                    language_id@,
                    i as int,
                ),
            decreases self.servers.len() - i,
        {
            if same_text(self.servers[i].language_id.as_str(), language_id) {
                return Some(&self.servers[i]);
            }
            i = i + 1;
        }
        None
    }
}

/// The server found for an extension claims it, and no earlier one does; where none is
/// found, none claims it.
pub proof fn law_first_claiming(servers: Seq<ServerConfig>, ext: Seq<char>, from: int)
    requires
        0 <= from <= servers.len(),
    ensures
        match first_claiming(servers, ext, from) {
            Some(i) => from <= i < servers.len() && servers[i].claims(ext) && forall|j: int|
                from <= j < i ==> !(#[trigger] servers[j]).claims(ext),
            None => forall|j: int| from <= j < servers.len() ==> !(#[trigger] servers[j]).claims(
                ext,
            ),
        },
    decreases servers.len() - from,
{
    if from < servers.len() && !servers[from].claims(ext) {
        law_first_claiming(servers, ext, from + 1);
    }
}

/// The case of ASCII letters in an extension does not matter.
pub proof fn law_extension_case(servers: Seq<ServerConfig>, a: Seq<char>, b: Seq<char>, from: int)
    requires
        same_but_ascii_case(a, b),
    ensures
        first_claiming(servers, a, from) == first_claiming(servers, b, from),
    decreases servers.len() - from,
{
    if 0 <= from < servers.len() {
        let server = servers[from];
        assert forall|k: int| 0 <= k < server.file_extensions@.len() implies same_but_ascii_case(
            #[trigger] server.file_extensions@[k]@,
            a,
        ) == same_but_ascii_case(server.file_extensions@[k]@, b) by {
            let e = server.file_extensions@[k]@;
            if same_but_ascii_case(e, a) {
                assert forall|i: int| 0 <= i < e.len() implies ascii_lower(#[trigger] e[i])
                    == ascii_lower(b[i]) by {
                    assert(ascii_lower(a[i]) == ascii_lower(b[i]));
                }
            }
            if same_but_ascii_case(e, b) {
                assert forall|i: int| 0 <= i < e.len() implies ascii_lower(#[trigger] e[i])
                    == ascii_lower(a[i]) by {
                    assert(ascii_lower(a[i]) == ascii_lower(b[i]));
                }
            }
        }
        assert(server.claims(a) == server.claims(b)) by {
            if server.claims(a) {
                let k = choose|k: int|
                    0 <= k < server.file_extensions@.len() && same_but_ascii_case(
                        #[trigger] server.file_extensions@[k]@,
                        a,
                    );
                assert(same_but_ascii_case(server.file_extensions@[k]@, b));
            }
            if server.claims(b) {
                let k = choose|k: int|
                    0 <= k < server.file_extensions@.len() && same_but_ascii_case(
                        #[trigger] server.file_extensions@[k]@,
                        b,
                    );
                assert(same_but_ascii_case(server.file_extensions@[k]@, a));
            }
        }
        law_extension_case(servers, a, b, from + 1);
    }
}

/// A request may take the configured seconds, or a minute.
pub proof fn law_timeout(server: ServerConfig, secs: u64)
    ensures
        server.timeout_secs == Some(secs) ==> server.seconds() == secs,
        server.timeout_secs is None ==> server.seconds() == 60,
{
}

/// Two texts that differ at most in case have the same length, and at each place the same
/// character or the two cases of an ASCII letter.
pub proof fn law_same_but_ascii_case(a: Seq<char>, b: Seq<char>)
    ensures
        same_but_ascii_case(a, b) <==> a.len() == b.len() && forall|i: int|
            0 <= i < a.len() ==> {
                ||| #[trigger] a[i] == b[i]
                ||| 'A' <= a[i] <= 'Z' && b[i] as int == a[i] as int + 32
                ||| 'A' <= b[i] <= 'Z' && a[i] as int == b[i] as int + 32
            },
{
    assert forall|c: char, d: char|
        ascii_lower(c) == ascii_lower(d) <==> {
            ||| c == d
            ||| 'A' <= c <= 'Z' && d as int == c as int + 32
            ||| 'A' <= d <= 'Z' && c as int == d as int + 32
        } by {
        if 'A' <= c <= 'Z' {
            assert(ascii_lower(c) as int == c as int + 32);
        }
        if 'A' <= d <= 'Z' {
            assert(ascii_lower(d) as int == d as int + 32);
        }
    }
    if same_but_ascii_case(a, b) {
        assert forall|i: int| 0 <= i < a.len() implies {
            ||| #[trigger] a[i] == b[i]
            ||| 'A' <= a[i] <= 'Z' && b[i] as int == a[i] as int + 32
            ||| 'A' <= b[i] <= 'Z' && a[i] as int == b[i] as int + 32
        } by {
            assert(ascii_lower(a[i]) == ascii_lower(b[i]));
        }
    }
}

/// A server claims an extension if and only if one of its configured extensions is the same
/// but for the case of ASCII letters; in particular it claims each configured one.
pub proof fn law_claims(server: ServerConfig, ext: Seq<char>, k: int)
    ensures
        0 <= k < server.file_extensions@.len() && same_but_ascii_case(
            server.file_extensions@[k]@,
            ext,
        ) ==> server.claims(ext),
        0 <= k < server.file_extensions@.len() ==> server.claims(server.file_extensions@[k]@),
        (forall|j: int|
            0 <= j < server.file_extensions@.len() ==> !same_but_ascii_case(
                #[trigger] server.file_extensions@[j]@,
                ext,
            )) ==> !server.claims(ext),
{
    if 0 <= k < server.file_extensions@.len() {
        let own = server.file_extensions@[k]@;
        assert(same_but_ascii_case(own, own));
    }
}

/// A file with an extension has the first server that claims it, and no server where none
/// does; a file without an extension has no server.
pub proof fn law_server_of_a_file(servers: Seq<ServerConfig>, path: Seq<u8>, ext: Seq<char>)
    ensures
        paths::extension_text(path) is None ==> server_for_path(servers, path) is None,
        paths::extension_text(path) == Some(ext) ==> match server_for_path(servers, path) {
            Some(i) => 0 <= i < servers.len() && servers[i].claims(ext) && forall|j: int|
                0 <= j < i ==> !(#[trigger] servers[j]).claims(ext),
            None => forall|j: int| 0 <= j < servers.len() ==> !(#[trigger] servers[j]).claims(ext),
        },
{
    law_first_claiming(servers, ext, 0);
}

/// The server found for a language id has it, and no earlier one does; where none is found,
/// none has it.
pub proof fn law_first_speaking(servers: Seq<ServerConfig>, id: Seq<char>, from: int)
    requires
        0 <= from <= servers.len(),
    ensures
        match first_speaking(servers, id, from) {
            Some(i) => from <= i < servers.len() && servers[i].language_id@ == id && forall|j: int|
                from <= j < i ==> (#[trigger] servers[j]).language_id@ != id,
            None => forall|j: int|
                from <= j < servers.len() ==> (#[trigger] servers[j]).language_id@ != id,
        },
    decreases servers.len() - from,
{
    if from < servers.len() && servers[from].language_id@ != id {
        law_first_speaking(servers, id, from + 1);
    }
}

/// What is found for a number is the server with it, and nothing for none.
pub proof fn law_found_server(found: Option<&ServerConfig>, servers: Seq<ServerConfig>, i: int)
    requires
        0 <= i < servers.len(),
    ensures
        is_server(found, servers, Some(i)) <==> found == Some(&servers[i]),
        is_server(found, servers, None) <==> found is None,
{
}

/// The loaded registry is used where one was asked for and could be loaded, and the built-in
/// one otherwise; the default registry is empty.
pub proof fn law_chosen_registry<E>(
    loaded: Config,
    error: E,
    builtin: Config,
    used: Config,
    fallback: Config,
    unasked: Config,
)
    requires
        call_ensures(
            Config::load_or_builtin::<E>,
            (Some(Ok::<Config, E>(loaded)), builtin),
            used,
        ),
        call_ensures(
            Config::load_or_builtin::<E>,
            (Some(Err::<Config, E>(error)), builtin),
            fallback,
        ),
        call_ensures(
            Config::load_or_builtin::<E>,
            (None::<Result<Config, E>>, builtin),
            unasked,
        ),
    ensures
        used == loaded,
        fallback == builtin,
        unasked == builtin,
{
}

} // verus!
