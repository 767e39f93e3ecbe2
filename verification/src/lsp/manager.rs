//! Workspace and language routing.
//!
//! A file belongs to the longest activated workspace root that contains it, and to the
//! language server that claims its extension. One client serves each pair of a root and a
//! language; it is made when it is first asked for. `C` is what the caller talks to a server
//! with.

use crate::config;
use crate::config::{Config, ServerConfig};
use crate::paths;
use crate::paths::{bytes_of, path_contains, paths_equal};
use crate::strings;
use crate::strings::same_text;
use std::path::PathBuf;
use vstd::prelude::*;

verus! {

/// A running server and the pair that it serves.
#[verifier::reject_recursive_types(C)]
pub struct Running<C> {
    root: PathBuf,
    language_id: String,
    client: C,
}

/// The content of a [`Running`].
#[verifier::ext_equal]
#[verifier::reject_recursive_types(C)]
pub struct RunningView<C> {
    pub root: Seq<u8>,
    pub language_id: Seq<char>,
    pub client: C,
}

impl<C> View for Running<C> {
    type V = RunningView<C>;

    closed spec fn view(&self) -> RunningView<C> {
        RunningView {
            root: paths::path_bytes(self.root),
            language_id: self.language_id@,
            client: self.client,
        }
    }
}

/// The activated workspaces and the running servers.
#[verifier::reject_recursive_types(C)]
pub struct Manager<C> {
    config: Config,
    workspaces: Vec<PathBuf>,
    clients: Vec<Running<C>>,
}

/// The content of a [`Manager`].
#[verifier::ext_equal]
#[verifier::reject_recursive_types(C)]
pub struct ManagerView<C> {
    pub config: Config,
    pub workspaces: Seq<Seq<u8>>,
    pub clients: Seq<RunningView<C>>,
}

/// What each running server holds.
pub open spec fn running_views<C>(list: Seq<Running<C>>) -> Seq<RunningView<C>> {
    Seq::new(list.len(), |i: int| list[i]@)
}

impl<C> View for Manager<C> {
    type V = ManagerView<C>;

    closed spec fn view(&self) -> ManagerView<C> {
        ManagerView {
            config: self.config,
            workspaces: paths::paths_bytes(self.workspaces@),
            clients: running_views(self.clients@),
        }
    }
}

/// A path is among the workspaces.
pub open spec fn is_listed(workspaces: Seq<Seq<u8>>, path: Seq<u8>) -> bool {
    exists|i: int| 0 <= i < workspaces.len() && paths::same_path(#[trigger] workspaces[i], path)
}

/// A server serves a pair of a root and a language.
pub open spec fn serves<C>(running: RunningView<C>, root: Seq<u8>, language_id: Seq<char>) -> bool {
    paths::same_path(running.root, root) && running.language_id == language_id
}

/// No workspace is listed twice, and no pair is served twice.
pub open spec fn manager_wf<C>(m: ManagerView<C>) -> bool {
    &&& forall|i: int, j: int|
        0 <= i < j < m.workspaces.len() ==> !paths::same_path(
            #[trigger] m.workspaces[i],
            #[trigger] m.workspaces[j],
        )
    &&& forall|i: int, j: int|
        #![trigger m.clients[i], m.clients[j]]
        0 <= i < j < m.clients.len() ==> !serves(
            m.clients[i],
            m.clients[j].root,
            m.clients[j].language_id,
        )
}

// ---- routing ----

/// The number of the longest workspace, in bytes, that contains a file; the last of several.
pub open spec fn longest(workspaces: Seq<Seq<u8>>, file: Seq<u8>) -> Option<int>
    decreases workspaces.len(),
{
    if workspaces.len() == 0 {
        None
    } else {
        let before = longest(workspaces.drop_last(), file);
        if paths::contains_path(workspaces.last(), file) && (before is None
            || workspaces.last().len() >= workspaces[before->Some_0].len()) {
            Some(workspaces.len() - 1)
        } else {
            before
        }
    }
}

/// The longest workspace contains the file, none that contains it is longer, and none behind
/// it is as long; where there is none, no workspace contains the file.
pub proof fn law_longest_workspace(workspaces: Seq<Seq<u8>>, file: Seq<u8>)
    ensures
        match longest(workspaces, file) {
            Some(best) => 0 <= best < workspaces.len() && paths::contains_path(
                workspaces[best],
                file,
            ) && forall|i: int|
                0 <= i < workspaces.len() && paths::contains_path(#[trigger] workspaces[i], file)
                    ==> workspaces[i].len() <= workspaces[best].len()
                    && (i > best ==> workspaces[i].len() < workspaces[best].len()),
            None => forall|i: int|
                0 <= i < workspaces.len() ==> !paths::contains_path(
                    #[trigger] workspaces[i],
                    file,
                ),
        },
    decreases workspaces.len(),
{
    if workspaces.len() > 0 {
        let before = workspaces.drop_last();
        law_longest_workspace(before, file);
        assert forall|i: int| 0 <= i < before.len() implies before[i] == #[trigger] workspaces[i] by {}
        assert(workspaces.last() == workspaces[workspaces.len() - 1]);
    }
}

/// The longest of `workspaces` that contains `file`.
pub fn longest_workspace<'a>(workspaces: &'a Vec<PathBuf>, file: &PathBuf) -> (r: Option<
    &'a PathBuf,
>)
    ensures
        match longest(paths::paths_bytes(workspaces@), paths::path_bytes(*file)) {
            Some(best) => 0 <= best < workspaces@.len() && r == Some(&workspaces@[best]),
            None => r is None,
        },
{
    let ghost all = paths::paths_bytes(workspaces@);
    let mut best: Option<usize> = None;
    let mut i: usize = 0;
    while i < workspaces.len()
        invariant
            i <= workspaces@.len(),
            all == paths::paths_bytes(workspaces@),
            best matches Some(b) ==> b < i,
            longest(all.take(i as int), paths::path_bytes(*file)) == (match best {
                Some(b) => Some(b as int),
                None => None,
            }),
        decreases workspaces.len() - i,
    {
        let ghost upto = all.take(i + 1);
        assert(upto.drop_last() == all.take(i as int));
        assert(upto.last() == paths::path_bytes(workspaces@[i as int]));
        if path_contains(&workspaces[i], file) {
            let length: usize = bytes_of(&workspaces[i]).len();
            match best {
                Some(b) => {
                    assert(upto.drop_last()[b as int] == paths::path_bytes(workspaces@[b as int]));
                    assert(upto[b as int] == paths::path_bytes(workspaces@[b as int]));
                    if length >= bytes_of(&workspaces[b]).len() {
                        best = Some(i);
                    }
                },
                None => {
                    best = Some(i);
                },
            }
        }
        i = i + 1;
    }
    assert(all.take(i as int) == all);
    match best {
        Some(b) => Some(&workspaces[b]),
        None => None,
    }
}

/// The first server, from number `from` on, that serves a pair.
pub open spec fn serving<C>(
    clients: Seq<RunningView<C>>,
    root: Seq<u8>,
    language_id: Seq<char>,
    from: int,
) -> Option<int>
    decreases clients.len() - from,
{
    if from < 0 || from >= clients.len() {
        None
    } else if serves(clients[from], root, language_id) {
        Some(from)
    } else {
        serving(clients, root, language_id, from + 1)
    }
}

/// Where a file is to be looked at.
#[verifier::reject_recursive_types(C)]
pub enum Route<'a, C> {
    /// No activated workspace contains the file.
    NoWorkspace,
    /// No language server claims the extension of the file.
    NoServer,
    /// With this client.
    Ready { client: &'a C },
    /// With a client that is to be made for this server and this root.
    Spawn { root: &'a PathBuf, server: &'a ServerConfig },
}

/// The content of a [`Route`]: workspaces and servers are given by their numbers.
#[verifier::reject_recursive_types(C)]
pub enum RouteView<C> {
    NoWorkspace,
    NoServer,
    Ready { client: C },
    Spawn { workspace: int, server: int },
}

/// Where a file is to be looked at.
pub open spec fn routed<C>(m: ManagerView<C>, file: Seq<u8>) -> RouteView<C> {
    match longest(m.workspaces, file) {
        None => RouteView::NoWorkspace,
        Some(workspace) => match config::server_for_path(m.config.servers@, file) {
            None => RouteView::NoServer,
            Some(server) => match serving(
                m.clients,
                m.workspaces[workspace],
                m.config.servers@[server].language_id@,
                0,
            ) {
                Some(k) => RouteView::Ready { client: m.clients[k].client },
                None => RouteView::Spawn { workspace, server },
            },
        },
    }
}

/// The text that says why a file has no route.
pub open spec fn no_route_text<C>(route: Route<C>) -> Option<Seq<char>> {
    match route {
        Route::NoWorkspace => Some(
            "no activated workspace contains this file; call `lsp_activate_workspace` first"@,
        ),
        Route::NoServer => Some("no language server configured for this file extension"@),
        _ => None,
    }
}

/// `route` is what `view` says of `m`.
pub open spec fn is_route<C>(route: Route<C>, view: RouteView<C>, m: ManagerView<C>) -> bool {
    match view {
        RouteView::NoWorkspace => route is NoWorkspace,
        RouteView::NoServer => route is NoServer,
        RouteView::Ready { client } => route matches Route::Ready { client: c } && *c == client,
        RouteView::Spawn { workspace, server } => route matches Route::Spawn { root, server: cfg }
            && 0 <= workspace < m.workspaces.len() && paths::path_bytes(*root)
            == m.workspaces[workspace] && 0 <= server < m.config.servers@.len() && *cfg
            == m.config.servers@[server],
    }
}

impl<'a, C> Route<'a, C> {
    /// The text that says why a file has no route.
    pub fn error(&self) -> (r: Option<String>)
        ensures
            strings::optional_text(r) == no_route_text(*self),
    {
        match self {
            Route::NoWorkspace => Some(
                "no activated workspace contains this file; call `lsp_activate_workspace` first".to_string(),
            ),
            Route::NoServer => Some(
                "no language server configured for this file extension".to_string(),
            ),
            _ => None,
        }
    }
}

// ---- transitions ----

/// A manager with a workspace activated.
pub open spec fn activated<C>(m: ManagerView<C>, path: Seq<u8>) -> ManagerView<C> {
    if is_listed(m.workspaces, path) {
        m
    } else {
        ManagerView { workspaces: m.workspaces.push(path), ..m }
    }
}

/// The workspaces but for `path`.
pub open spec fn without_workspace(workspaces: Seq<Seq<u8>>, path: Seq<u8>) -> Seq<Seq<u8>>
    decreases workspaces.len(),
{
    if workspaces.len() == 0 {
        workspaces
    } else {
        let before = without_workspace(workspaces.drop_last(), path);
        if paths::same_path(workspaces.last(), path) {
            before
        } else {
            before.push(workspaces.last())
        }
    }
}

/// The servers under a root (`under`), or the others, in their order.
pub open spec fn servers_under<C>(clients: Seq<RunningView<C>>, root: Seq<u8>, under: bool) -> Seq<
    RunningView<C>,
>
    decreases clients.len(),
{
    if clients.len() == 0 {
        clients
    } else {
        let before = servers_under(clients.drop_last(), root, under);
        if paths::same_path(clients.last().root, root) == under {
            before.push(clients.last())
        } else {
            before
        }
    }
}

/// A manager with a workspace deactivated, its servers gone.
pub open spec fn deactivated<C>(m: ManagerView<C>, path: Seq<u8>) -> ManagerView<C> {
    ManagerView {
        workspaces: without_workspace(m.workspaces, path),
        clients: servers_under(m.clients, path, false),
        ..m
    }
}

/// A manager with one more running server; it takes the place of one that serves the same
/// pair.
pub open spec fn running<C>(m: ManagerView<C>, server: RunningView<C>) -> ManagerView<C> {
    match serving(m.clients, server.root, server.language_id, 0) {
        Some(k) => ManagerView { clients: m.clients.update(k, server), ..m },
        None => ManagerView { clients: m.clients.push(server), ..m },
    }
}

proof fn lemma_serving<C>(
    clients: Seq<RunningView<C>>,
    root: Seq<u8>,
    language_id: Seq<char>,
    from: int,
)
    requires
        0 <= from <= clients.len(),
    ensures
        match serving(clients, root, language_id, from) {
            Some(k) => from <= k < clients.len() && serves(clients[k], root, language_id)
                && forall|i: int| from <= i < k ==> !serves(#[trigger] clients[i], root, language_id),
            None => forall|i: int|
                from <= i < clients.len() ==> !serves(#[trigger] clients[i], root, language_id),
        },
    decreases clients.len() - from,
{
    if from < clients.len() && !serves(clients[from], root, language_id) {
        lemma_serving(clients, root, language_id, from + 1);
    }
}

proof fn lemma_serving_at<C>(
    clients: Seq<RunningView<C>>,
    root: Seq<u8>,
    language_id: Seq<char>,
    from: int,
    k: int,
)
    requires
        0 <= from <= k < clients.len(),
        serves(clients[k], root, language_id),
        forall|i: int| from <= i < k ==> !serves(#[trigger] clients[i], root, language_id),
    ensures
        serving(clients, root, language_id, from) == Some(k),
    decreases k - from,
{
    if from < k {
        assert(!serves(clients[from], root, language_id));
        lemma_serving_at(clients, root, language_id, from + 1, k);
    }
}

proof fn lemma_without_workspace(workspaces: Seq<Seq<u8>>, path: Seq<u8>)
    ensures
        forall|i: int|
            #![trigger without_workspace(workspaces, path)[i]]
            0 <= i < without_workspace(workspaces, path).len() ==> workspaces.contains(
                without_workspace(workspaces, path)[i],
            ) && !paths::same_path(without_workspace(workspaces, path)[i], path),
        forall|i: int|
            0 <= i < workspaces.len() && !paths::same_path(#[trigger] workspaces[i], path)
                ==> without_workspace(workspaces, path).contains(workspaces[i]),
    decreases workspaces.len(),
{
    if workspaces.len() > 0 {
        let init = workspaces.drop_last();
        let last = workspaces.last();
        lemma_without_workspace(init, path);
        let before = without_workspace(init, path);
        let kept = without_workspace(workspaces, path);
        assert(workspaces[workspaces.len() - 1] == last);
        assert forall|i: int| #![trigger kept[i]] 0 <= i < kept.len() implies workspaces.contains(
            kept[i],
        ) && !paths::same_path(kept[i], path) by {
            if i < before.len() {
                assert(kept[i] == before[i]);
                let k = choose|k: int| 0 <= k < init.len() && init[k] == before[i];
                assert(workspaces[k] == kept[i]);
            }
        }
        assert forall|i: int|
            0 <= i < workspaces.len() && !paths::same_path(
                #[trigger] workspaces[i],
                path,
            ) implies kept.contains(workspaces[i]) by {
            if i < init.len() {
                assert(init[i] == workspaces[i]);
                let k = choose|k: int| 0 <= k < before.len() && before[k] == init[i];
                assert(kept[k] == workspaces[i]);
            } else {
                assert(kept[kept.len() - 1] == workspaces[i]);
            }
        }
    }
}

proof fn lemma_without_workspace_distinct(workspaces: Seq<Seq<u8>>, path: Seq<u8>)
    requires
        forall|i: int, j: int|
            0 <= i < j < workspaces.len() ==> !paths::same_path(
                #[trigger] workspaces[i],
                #[trigger] workspaces[j],
            ),
    ensures
        forall|i: int, j: int|
            0 <= i < j < without_workspace(workspaces, path).len() ==> !paths::same_path(
                #[trigger] without_workspace(workspaces, path)[i],
                #[trigger] without_workspace(workspaces, path)[j],
            ),
    decreases workspaces.len(),
{
    if workspaces.len() > 0 {
        let init = workspaces.drop_last();
        assert forall|i: int, j: int| 0 <= i < j < init.len() implies !paths::same_path(
            #[trigger] init[i],
            #[trigger] init[j],
        ) by {
            assert(init[i] == workspaces[i] && init[j] == workspaces[j]);
        }
        lemma_without_workspace_distinct(init, path);
        lemma_without_workspace(init, path);
        let before = without_workspace(init, path);
        let kept = without_workspace(workspaces, path);
        assert forall|i: int, j: int| 0 <= i < j < kept.len() implies !paths::same_path(
            #[trigger] kept[i],
            #[trigger] kept[j],
        ) by {
            assert(kept[i] == before[i]);
            if j < before.len() {
                assert(kept[j] == before[j]);
            } else {
                let k = choose|k: int| 0 <= k < init.len() && init[k] == before[i];
                assert(workspaces[k] == kept[i]);
                assert(workspaces[workspaces.len() - 1] == kept[j]);
            }
        }
    }
}

proof fn lemma_servers_under<C>(clients: Seq<RunningView<C>>, root: Seq<u8>, under: bool)
    ensures
        forall|i: int|
            #![trigger servers_under(clients, root, under)[i]]
            0 <= i < servers_under(clients, root, under).len() ==> clients.contains(
                servers_under(clients, root, under)[i],
            ) && paths::same_path(servers_under(clients, root, under)[i].root, root) == under,
        forall|i: int|
            0 <= i < clients.len() && paths::same_path((#[trigger] clients[i]).root, root) == under
                ==> servers_under(clients, root, under).contains(clients[i]),
    decreases clients.len(),
{
    if clients.len() > 0 {
        let init = clients.drop_last();
        let last = clients.last();
        lemma_servers_under(init, root, under);
        let before = servers_under(init, root, under);
        let kept = servers_under(clients, root, under);
        assert(clients[clients.len() - 1] == last);
        assert forall|i: int| #![trigger kept[i]] 0 <= i < kept.len() implies clients.contains(
            kept[i],
        ) && paths::same_path(kept[i].root, root) == under by {
            if i < before.len() {
                assert(kept[i] == before[i]);
                let k = choose|k: int| 0 <= k < init.len() && init[k] == before[i];
                assert(clients[k] == kept[i]);
            }
        }
        assert forall|i: int|
            0 <= i < clients.len() && paths::same_path((#[trigger] clients[i]).root, root)
                == under implies kept.contains(clients[i]) by {
            if i < init.len() {
                assert(init[i] == clients[i]);
                let k = choose|k: int| 0 <= k < before.len() && before[k] == init[i];
                assert(kept[k] == clients[i]);
            } else {
                assert(kept[kept.len() - 1] == clients[i]);
            }
        }
    }
}

proof fn lemma_servers_under_distinct<C>(clients: Seq<RunningView<C>>, root: Seq<u8>, under: bool)
    requires
        forall|i: int, j: int|
            #![trigger clients[i], clients[j]]
            0 <= i < j < clients.len() ==> !serves(
                clients[i],
                clients[j].root,
                clients[j].language_id,
            ),
    ensures
        ({
            let kept = servers_under(clients, root, under);
            forall|i: int, j: int|
                #![trigger kept[i], kept[j]]
                0 <= i < j < kept.len() ==> !serves(kept[i], kept[j].root, kept[j].language_id)
        }),
    decreases clients.len(),
{
    if clients.len() > 0 {
        let init = clients.drop_last();
        assert forall|i: int, j: int|
            #![trigger init[i], init[j]]
            0 <= i < j < init.len() implies !serves(init[i], init[j].root, init[j].language_id) by {
            assert(init[i] == clients[i] && init[j] == clients[j]);
        }
        lemma_servers_under_distinct(init, root, under);
        lemma_servers_under(init, root, under);
        let before = servers_under(init, root, under);
        let kept = servers_under(clients, root, under);
        assert forall|i: int, j: int|
            #![trigger kept[i], kept[j]]
            0 <= i < j < kept.len() implies !serves(kept[i], kept[j].root, kept[j].language_id) by {
            assert(kept[i] == before[i]);
            if j < before.len() {
                assert(kept[j] == before[j]);
            } else {
                let k = choose|k: int| 0 <= k < init.len() && init[k] == before[i];
                assert(clients[k] == kept[i]);
                assert(clients[clients.len() - 1] == kept[j]);
            }
        }
    }
}

proof fn lemma_running_push<C>(list: Seq<Running<C>>, server: Running<C>)
    ensures
        running_views(list.push(server)) == running_views(list).push(server@),
{
    assert(running_views(list.push(server)) =~= running_views(list).push(server@));
}

impl<C> Manager<C> {
    /// A manager without workspaces.
    pub fn new(config: Config) -> (r: Self)
        ensures
            r@ == (ManagerView {
                config,
                workspaces: Seq::empty(),
                clients: Seq::<RunningView<C>>::empty(),
            }),
            manager_wf(r@),
    {
        let m = Manager { config, workspaces: Vec::new(), clients: Vec::new() };
        assert(m@ =~= (ManagerView {
            config,
            workspaces: Seq::empty(),
            clients: Seq::<RunningView<C>>::empty(),
        }));
        m
    }

    /// Activates the workspace at a resolved path.
    pub fn activate_workspace(&mut self, path: &PathBuf)
        ensures
            final(self)@ == activated(old(self)@, paths::path_bytes(*path)),
            manager_wf(old(self)@) ==> manager_wf(final(self)@),
    {
        let ghost all = self@.workspaces;
        let mut i: usize = 0;
        while i < self.workspaces.len()
            invariant
                i <= self.workspaces@.len(),
                self@ == old(self)@,
                all == paths::paths_bytes(self.workspaces@),
                all == old(self)@.workspaces,
                forall|j: int|
                    0 <= j < i ==> !paths::same_path(#[trigger] all[j], paths::path_bytes(*path)),
            decreases self.workspaces.len() - i,
        {
            if paths_equal(&self.workspaces[i], path) {
                assert(paths::same_path(all[i as int], paths::path_bytes(*path)));
                return;
            }
            assert(!paths::same_path(all[i as int], paths::path_bytes(*path)));
            i = i + 1;
        }
        assert(!is_listed(all, paths::path_bytes(*path)));
        let added = path.clone();
        self.workspaces.push(added);
        assert(self@.workspaces =~= all.push(paths::path_bytes(*path)));
        assert(self@ =~= activated(old(self)@, paths::path_bytes(*path)));
        proof {
            let now = self@.workspaces;
            if manager_wf(old(self)@) {
                assert forall|i: int, j: int| 0 <= i < j < now.len() implies !paths::same_path(
                    #[trigger] now[i],
                    #[trigger] now[j],
                ) by {
                    assert(now[i] == all[i]);
                    if j < all.len() {
                        assert(now[j] == all[j]);
                    }
                }
            }
        }
    }

    /// The activated workspaces.
    pub fn list_workspaces(&self) -> (r: &Vec<PathBuf>)
        ensures
            paths::paths_bytes(r@) == self@.workspaces,
    {
        &self.workspaces
    }

    /// Deactivates the workspace at a resolved path, where it could be resolved. Returns
    /// whether it was active, and what the servers under it were talked to with.
    pub fn deactivate_workspace(&mut self, path: Option<&PathBuf>) -> (r: (bool, Vec<C>))
        ensures
            match path {
                Some(path) => {
                    let stopped = servers_under(old(self)@.clients, paths::path_bytes(*path), true);
                    &&& final(self)@ == deactivated(old(self)@, paths::path_bytes(*path))
                    &&& r.1@ == Seq::new(stopped.len(), |i: int| stopped[i].client)
                    &&& r.0 == is_listed(old(self)@.workspaces, paths::path_bytes(*path))
                },
                None => final(self)@ == old(self)@ && !r.0 && r.1@.len() == 0,
            },
            manager_wf(old(self)@) ==> manager_wf(final(self)@),
    {
        let path = match path {
            Some(path) => path,
            None => {
                return (false, Vec::new());
            },
        };
        let ghost all = self@.workspaces;
        let ghost servers = self@.clients;
        let mut workspaces: Vec<PathBuf> = Vec::new();
        let mut active = false;
        let mut i: usize = 0;
        assert(all.take(0) == Seq::<Seq<u8>>::empty());
        while i < self.workspaces.len()
            invariant
                i <= self.workspaces@.len(),
                self@ == old(self)@,
                all == paths::paths_bytes(self.workspaces@),
                all == old(self)@.workspaces,
                servers == old(self)@.clients,
                paths::paths_bytes(workspaces@) == without_workspace(
                    all.take(i as int),
                    paths::path_bytes(*path),
                ),
                active ==> is_listed(all, paths::path_bytes(*path)),
                !active ==> forall|j: int|
                    0 <= j < i ==> !paths::same_path(#[trigger] all[j], paths::path_bytes(*path)),
            decreases self.workspaces.len() - i,
        {
            assert(all.take(i + 1).drop_last() == all.take(i as int));
            assert(all.take(i + 1).last() == paths::path_bytes(self.workspaces@[i as int]));
            assert(all[i as int] == paths::path_bytes(self.workspaces@[i as int]));
            if paths_equal(&self.workspaces[i], path) {
                active = true;
            } else {
                let kept = self.workspaces[i].clone();
                assert(paths::paths_bytes(workspaces@.push(kept)) == paths::paths_bytes(
                    workspaces@,
                ).push(paths::path_bytes(kept)));
                workspaces.push(kept);
            }
            i = i + 1;
        }
        assert(all.take(i as int) == all);
        let mut clients: Vec<Running<C>> = Vec::new();
        std::mem::swap(&mut clients, &mut self.clients);
        let ghost list = clients@;
        let mut left: Vec<Running<C>> = Vec::new();
        let mut stopped: Vec<C> = Vec::new();
        assert(servers.take(0) == Seq::<RunningView<C>>::empty());
        let ghost wanted = servers_under(servers, paths::path_bytes(*path), true);
        for server in it: clients
            invariant
                it.seq() == list,
                servers == running_views(list),
                running_views(left@) == servers_under(
                    servers.take(it.index() as int),
                    paths::path_bytes(*path),
                    false,
                ),
                ({
                    let out = servers_under(
                        servers.take(it.index() as int),
                        paths::path_bytes(*path),
                        true,
                    );
                    stopped@ == Seq::new(out.len(), |i: int| out[i].client)
                }),
        {
            let ghost k = it.index() as int;
            let ghost upto = servers.take(k + 1);
            assert(upto.drop_last() == servers.take(k));
            assert(upto.last() == server@);
            if paths_equal(&server.root, path) {
                let ghost out = servers_under(servers.take(k), paths::path_bytes(*path), true);
                let ghost more = servers_under(upto, paths::path_bytes(*path), true);
                assert(more == out.push(server@));
                stopped.push(server.client);
                assert(stopped@ =~= Seq::new(more.len(), |i: int| more[i].client));
            } else {
                proof {
                    lemma_running_push(left@, server);
                }
                left.push(server);
            }
        }
        assert(servers.take(servers.len() as int) == servers);
        self.workspaces = workspaces;
        self.clients = left;
        assert(self@ =~= deactivated(old(self)@, paths::path_bytes(*path)));
        proof {
            if manager_wf(old(self)@) {
                lemma_without_workspace_distinct(all, paths::path_bytes(*path));
                lemma_servers_under_distinct(servers, paths::path_bytes(*path), false);
            }
        }
        (active, stopped)
    }

    /// Where a file is to be looked at.
    pub fn client_for(&self, file: &PathBuf) -> (r: Route<'_, C>)
        ensures
            is_route(r, routed(self@, paths::path_bytes(*file)), self@),
    {
        let root = match longest_workspace(&self.workspaces, file) {
            Some(root) => root,
            None => {
                return Route::NoWorkspace;
            },
        };
        proof {
            law_longest_workspace(self@.workspaces, paths::path_bytes(*file));
        }
        let server = match self.config.language_for_path(file) {
            Some(server) => server,
            None => {
                return Route::NoServer;
            },
        };
        match self.find(root, server.language_id.as_str()) {
            Some(k) => Route::Ready { client: &self.clients[k].client },
            None => Route::Spawn { root, server },
        }
    }

    fn find(&self, root: &PathBuf, language_id: &str) -> (r: Option<usize>)
        ensures
            (match r {
                Some(k) => Some(k as int),
                None => None,
            }) == serving(self@.clients, paths::path_bytes(*root), language_id@, 0),
            r matches Some(k) ==> k < self.clients@.len(),
    {
        let ghost servers = self@.clients;
        let mut i: usize = 0;
        while i < self.clients.len()
            invariant
                i <= self.clients@.len(),
                servers == running_views(self.clients@),
                serving(servers, paths::path_bytes(*root), language_id@, 0) == serving(
                    servers,
                    paths::path_bytes(*root),
                    language_id@,
                    i as int,
                ),
            decreases self.clients.len() - i,
        {
            assert(servers[i as int] == self.clients@[i as int]@);
            if paths_equal(&self.clients[i].root, root) && same_text(
                self.clients[i].language_id.as_str(),
                language_id,
            ) {
                return Some(i);
            }
            i = i + 1;
        }
        None
    }

    /// Notes a server that runs for a root and a language.
    pub fn insert_client(&mut self, root: &PathBuf, language_id: &str, client: C)
        ensures
            final(self)@ == running(
                old(self)@,
                RunningView { root: paths::path_bytes(*root), language_id: language_id@, client },
            ),
            manager_wf(old(self)@) ==> manager_wf(final(self)@),
    {
        let ghost before = self@.clients;
        let server = Running {
            root: root.clone(),
            language_id: language_id.to_string(),
            client,
        };
        let ghost view = server@;
        proof {
            lemma_serving(before, paths::path_bytes(*root), language_id@, 0);
        }
        match self.find(root, language_id) {
            Some(k) => {
                self.clients.set(k, server);
                assert(self@.clients =~= before.update(k as int, view));
            },
            None => {
                proof {
                    lemma_running_push(self.clients@, server);
                }
                self.clients.push(server);
                assert(self@.clients =~= before.push(view));
            },
        }
        assert(self@ =~= running(old(self)@, view));
        proof {
            law_pairs_served_once(old(self)@, view);
        }
    }

    /// The languages of the servers that run under a workspace root, and what they are talked
    /// to with: their logs are the logs of the workspace.
    pub fn server_logs(&self, workspace: &PathBuf) -> (r: Vec<(&String, &C)>)
        ensures
            ({
                let servers = servers_under(self@.clients, paths::path_bytes(*workspace), true);
                r@.len() == servers.len() && forall|i: int|
                    0 <= i < servers.len() ==> (#[trigger] r@[i]).0@ == servers[i].language_id
                        && *r@[i].1 == servers[i].client
            }),
    {
        let ghost servers = self@.clients;
        let mut out: Vec<(&String, &C)> = Vec::new();
        let mut i: usize = 0;
        assert(servers.take(0) == Seq::<RunningView<C>>::empty());
        while i < self.clients.len()
            invariant
                i <= self.clients@.len(),
                servers == running_views(self.clients@),
                ({
                    let found = servers_under(servers.take(i as int), paths::path_bytes(*workspace), true);
                    out@.len() == found.len() && forall|j: int|
                        0 <= j < found.len() ==> (#[trigger] out@[j]).0@ == found[j].language_id
                            && *out@[j].1 == found[j].client
                }),
            decreases self.clients.len() - i,
        {
            assert(servers.take(i + 1).drop_last() == servers.take(i as int));
            assert(servers.take(i + 1).last() == self.clients@[i as int]@);
            if paths_equal(&self.clients[i].root, workspace) {
                out.push((&self.clients[i].language_id, &self.clients[i].client));
            }
            i = i + 1;
        }
        assert(servers.take(i as int) == servers);
        out
    }
}

// ---- laws ----

/// No pair is served by two servers, whichever servers are noted.
pub proof fn law_pairs_served_once<C>(m: ManagerView<C>, server: RunningView<C>)
    ensures
        manager_wf(m) ==> manager_wf(running(m, server)),
{
    if manager_wf(m) {
        lemma_serving(m.clients, server.root, server.language_id, 0);
        let now = running(m, server).clients;
        let found = serving(m.clients, server.root, server.language_id, 0);
        assert forall|i: int, j: int|
            #![trigger now[i], now[j]]
            0 <= i < j < now.len() implies !serves(now[i], now[j].root, now[j].language_id) by {
            if let Some(k) = found {
                let old_k = m.clients[k];
                if i == k {
                    assert(now[j] == m.clients[j]);
                    assert(!serves(m.clients[k], m.clients[j].root, m.clients[j].language_id));
                } else if j == k {
                    assert(now[i] == m.clients[i]);
                    assert(!serves(m.clients[i], m.clients[k].root, m.clients[k].language_id));
                } else {
                    assert(now[i] == m.clients[i] && now[j] == m.clients[j]);
                }
            } else {
                assert(now[i] == m.clients[i]);
                if j < m.clients.len() {
                    assert(now[j] == m.clients[j]);
                }
            }
        }
    }
}

/// An activated workspace is listed; activating it again changes nothing; the others stay.
pub proof fn law_activation<C>(m: ManagerView<C>, path: Seq<u8>)
    ensures
        is_listed(activated(m, path).workspaces, path),
        activated(activated(m, path), path) == activated(m, path),
        forall|i: int|
            0 <= i < m.workspaces.len() ==> activated(m, path).workspaces[i]
                == #[trigger] m.workspaces[i],
        activated(m, path).clients == m.clients,
{
    if !is_listed(m.workspaces, path) {
        let now = m.workspaces.push(path);
        assert(paths::same_path(now[now.len() - 1], path));
        assert(is_listed(now, path));
    }
}

/// A deactivated workspace is not listed, and no server runs under it; the other workspaces
/// and their servers stay.
pub proof fn law_deactivation<C>(m: ManagerView<C>, path: Seq<u8>)
    ensures
        !is_listed(deactivated(m, path).workspaces, path),
        servers_under(deactivated(m, path).clients, path, true).len() == 0,
        forall|i: int|
            0 <= i < m.workspaces.len() && !paths::same_path(#[trigger] m.workspaces[i], path)
                ==> deactivated(m, path).workspaces.contains(m.workspaces[i]),
        forall|i: int|
            0 <= i < m.clients.len() && !paths::same_path((#[trigger] m.clients[i]).root, path)
                ==> deactivated(m, path).clients.contains(m.clients[i]),
{
    let now = deactivated(m, path);
    lemma_without_workspace(m.workspaces, path);
    lemma_servers_under(m.clients, path, false);
    lemma_servers_under(now.clients, path, true);
    let found = servers_under(now.clients, path, true);
    if found.len() > 0 {
        assert(now.clients.contains(found[0]) && paths::same_path(found[0].root, path));
        let k = choose|k: int| 0 <= k < now.clients.len() && now.clients[k] == found[0];
        assert(!paths::same_path(now.clients[k].root, path));
    }
}

/// A server is made once per pair: once it runs for the root and the language of a file, that
/// file, and every other one with the same root and language, is looked at with it.
pub proof fn law_made_once<C>(m: ManagerView<C>, file: Seq<u8>, other: Seq<u8>, client: C)
    requires
        routed(m, file) matches RouteView::Spawn { .. },
        longest(m.workspaces, other) == longest(m.workspaces, file),
        config::server_for_path(m.config.servers@, other) is Some,
        m.config.servers@[config::server_for_path(
            m.config.servers@,
            other,
        )->Some_0].language_id@ == m.config.servers@[config::server_for_path(
            m.config.servers@,
            file,
        )->Some_0].language_id@,
    ensures
        ({
            let workspace = longest(m.workspaces, file)->Some_0;
            let server = config::server_for_path(m.config.servers@, file)->Some_0;
            let after = running(
                m,
                RunningView {
                    root: m.workspaces[workspace],
                    language_id: m.config.servers@[server].language_id@,
                    client,
                },
            );
            routed(after, file) == (RouteView::Ready { client }) && routed(after, other)
                == (RouteView::Ready { client })
        }),
{
    let workspace = longest(m.workspaces, file)->Some_0;
    let server = config::server_for_path(m.config.servers@, file)->Some_0;
    let root = m.workspaces[workspace];
    let language_id = m.config.servers@[server].language_id@;
    let made = RunningView { root, language_id, client };
    let after = running(m, made);
    lemma_serving(m.clients, root, language_id, 0);
    assert(after.clients == m.clients.push(made));
    let k = m.clients.len() as int;
    assert(after.clients[k] == made);
    assert forall|i: int| 0 <= i < k implies !serves(
        #[trigger] after.clients[i],
        root,
        language_id,
    ) by {
        assert(after.clients[i] == m.clients[i]);
    }
    lemma_serving_at(after.clients, root, language_id, 0, k);
}

/// A file outside every activated workspace has no route.
pub proof fn law_outside_files_have_no_route<C>(m: ManagerView<C>, file: Seq<u8>)
    ensures
        (forall|i: int|
            0 <= i < m.workspaces.len() ==> !paths::contains_path(#[trigger] m.workspaces[i], file))
            <==> routed(m, file) == RouteView::<C>::NoWorkspace,
{
    law_longest_workspace(m.workspaces, file);
}

/// Which root a file belongs to depends neither on the order of the roots nor on roots that do
/// not contain the file: two lists with the same roots around the file, the roots of one being
/// canonical, give the same root, or both give none.
pub proof fn law_order_of_roots(ws: Seq<Seq<u8>>, others: Seq<Seq<u8>>, file: Seq<u8>)
    requires
        forall|i: int| 0 <= i < ws.len() ==> paths::is_canonical(#[trigger] ws[i]),
        forall|i: int|
            0 <= i < ws.len() && paths::contains_path(#[trigger] ws[i], file) ==> others.contains(
                ws[i],
            ),
        forall|i: int|
            0 <= i < others.len() && paths::contains_path(#[trigger] others[i], file)
                ==> ws.contains(others[i]),
    ensures
        match (longest(ws, file), longest(others, file)) {
            (None, None) => true,
            (Some(i), Some(j)) => ws[i] == others[j],
            _ => false,
        },
{
    law_longest_workspace(ws, file);
    law_longest_workspace(others, file);
    match (longest(ws, file), longest(others, file)) {
        (Some(i), Some(j)) => {
            let k = choose|k: int| 0 <= k < others.len() && others[k] == ws[i];
            let l = choose|l: int| 0 <= l < ws.len() && ws[l] == others[j];
            assert(others[k].len() <= others[j].len());
            assert(ws[l].len() <= ws[i].len());
            paths::law_canonical_paths_differ_in_length(ws[i], others[j], file);
        },
        (Some(i), None) => {
            let k = choose|k: int| 0 <= k < others.len() && others[k] == ws[i];
            assert(!paths::contains_path(others[k], file));
        },
        (None, Some(j)) => {
            let l = choose|l: int| 0 <= l < ws.len() && ws[l] == others[j];
            assert(!paths::contains_path(ws[l], file));
        },
        (None, None) => {},
    }
}

/// The number of the running server that a file is looked at with.
pub open spec fn entry_for<C>(m: ManagerView<C>, file: Seq<u8>) -> Option<int> {
    match (longest(m.workspaces, file), config::server_for_path(m.config.servers@, file)) {
        (Some(workspace), Some(server)) => serving(
            m.clients,
            m.workspaces[workspace],
            m.config.servers@[server].language_id@,
            0,
        ),
        _ => None,
    }
}

/// Two files are looked at with the same server if and only if they belong to the same root
/// and the same language: there is one server for each such pair.
pub proof fn law_one_server_per_pair<C>(m: ManagerView<C>, file: Seq<u8>, other: Seq<u8>)
    requires
        manager_wf(m),
        entry_for(m, file) is Some,
        entry_for(m, other) is Some,
    ensures
        ({
            let server = config::server_for_path(m.config.servers@, file)->Some_0;
            let other_server = config::server_for_path(m.config.servers@, other)->Some_0;
            &&& entry_for(m, file) == entry_for(m, other) <==> (longest(m.workspaces, file)
                == longest(m.workspaces, other) && m.config.servers@[server].language_id@
                == m.config.servers@[other_server].language_id@)
            &&& routed(m, file) == (RouteView::Ready {
                client: m.clients[entry_for(m, file)->Some_0].client,
            })
            &&& routed(m, other) == (RouteView::Ready {
                client: m.clients[entry_for(m, other)->Some_0].client,
            })
        }),
{
    let root = longest(m.workspaces, file)->Some_0;
    let other_root = longest(m.workspaces, other)->Some_0;
    let server = config::server_for_path(m.config.servers@, file)->Some_0;
    let other_server = config::server_for_path(m.config.servers@, other)->Some_0;
    law_longest_workspace(m.workspaces, file);
    law_longest_workspace(m.workspaces, other);
    lemma_serving(m.clients, m.workspaces[root], m.config.servers@[server].language_id@, 0);
    lemma_serving(
        m.clients,
        m.workspaces[other_root],
        m.config.servers@[other_server].language_id@,
        0,
    );
    if entry_for(m, file) == entry_for(m, other) {
        assert(paths::same_path(m.workspaces[root], m.workspaces[other_root]));
        if root < other_root {
            assert(!paths::same_path(m.workspaces[root], m.workspaces[other_root]));
        } else if other_root < root {
            assert(!paths::same_path(m.workspaces[other_root], m.workspaces[root]));
        }
    }
}

/// The route of a file is what its workspaces, servers and clients say. It has none exactly
/// where no workspace contains it, and no server exactly where one contains it and no server
/// claims its extension. Otherwise it goes to the longest workspace that contains it and to the
/// first server that claims its extension: with the client that serves this pair, where one
/// does, and else with one that is to be made for this root and this server.
pub proof fn law_route<C>(m: ManagerView<C>, file: Seq<u8>, route: Route<C>)
    requires
        is_route(route, routed(m, file), m),
    ensures
        route is NoWorkspace <==> forall|i: int|
            0 <= i < m.workspaces.len() ==> !paths::contains_path(#[trigger] m.workspaces[i], file),
        route is NoServer <==> (exists|i: int|
            0 <= i < m.workspaces.len() && paths::contains_path(#[trigger] m.workspaces[i], file))
            && (paths::extension_text(file) is None || forall|j: int|
            0 <= j < m.config.servers@.len() ==> !(#[trigger] m.config.servers@[j]).claims(
                paths::extension_text(file)->Some_0,
            )),
        route is Spawn || route is Ready ==> paths::extension_text(file) is Some && exists|
            w: int,
            s: int,
        |
            #![trigger m.workspaces[w], m.config.servers@[s]]
            {
                &&& 0 <= w < m.workspaces.len()
                &&& paths::contains_path(m.workspaces[w], file)
                &&& forall|i: int|
                    0 <= i < m.workspaces.len() && paths::contains_path(
                        #[trigger] m.workspaces[i],
                        file,
                    ) ==> m.workspaces[i].len() <= m.workspaces[w].len()
                &&& 0 <= s < m.config.servers@.len()
                &&& m.config.servers@[s].claims(paths::extension_text(file)->Some_0)
                &&& forall|j: int|
                    0 <= j < s ==> !(#[trigger] m.config.servers@[j]).claims(
                        paths::extension_text(file)->Some_0,
                    )
                &&& route is Spawn ==> {
                    &&& paths::path_bytes(*route->Spawn_root) == m.workspaces[w]
                    &&& *route->Spawn_server == m.config.servers@[s]
                    &&& forall|k: int|
                        0 <= k < m.clients.len() ==> !(paths::same_path(
                            (#[trigger] m.clients[k]).root,
                            m.workspaces[w],
                        ) && m.clients[k].language_id == m.config.servers@[s].language_id@)
                }
                &&& route is Ready ==> exists|k: int|
                    0 <= k < m.clients.len() && (#[trigger] m.clients[k]).client
                        == *route->Ready_client && paths::same_path(
                        m.clients[k].root,
                        m.workspaces[w],
                    ) && m.clients[k].language_id == m.config.servers@[s].language_id@
            },
{
    law_longest_workspace(m.workspaces, file);
    let workspace = longest(m.workspaces, file);
    let server = config::server_for_path(m.config.servers@, file);
    if paths::extension_text(file) is Some {
        config::law_first_claiming(m.config.servers@, paths::extension_text(file)->Some_0, 0);
    }
    if workspace is Some && server is Some {
        let w = workspace->Some_0;
        let s = server->Some_0;
        let root = m.workspaces[w];
        let language_id = m.config.servers@[s].language_id@;
        lemma_serving(m.clients, root, language_id, 0);
        assert(m.config.servers@[s].claims(paths::extension_text(file)->Some_0));
        match serving(m.clients, root, language_id, 0) {
            Some(k) => {
                assert(route is Ready);
                assert(m.clients[k].client == *route->Ready_client);
            },
            None => {
                assert(route is Spawn);
                assert forall|k: int| 0 <= k < m.clients.len() implies !(paths::same_path(
                    (#[trigger] m.clients[k]).root,
                    root,
                ) && m.clients[k].language_id == language_id) by {
                    assert(!serves(m.clients[k], root, language_id));
                }
            },
        }
    }
}

/// A file without a route is answered with the reason, another one with nothing.
pub proof fn law_no_route_text<C>(route: Route<C>)
    ensures
        route is NoWorkspace ==> no_route_text(route) == Some(
            "no activated workspace contains this file; call `lsp_activate_workspace` first"@,
        ),
        route is NoServer ==> no_route_text(route) == Some(
            "no language server configured for this file extension"@,
        ),
        route is Ready || route is Spawn ==> no_route_text(route) is None,
{
}

/// A workspace is listed where one with the same path is.
pub proof fn law_listed(workspaces: Seq<Seq<u8>>, path: Seq<u8>, i: int)
    ensures
        0 <= i < workspaces.len() && paths::same_path(workspaces[i], path) ==> is_listed(
            workspaces,
            path,
        ),
        (forall|j: int|
            0 <= j < workspaces.len() ==> !paths::same_path(#[trigger] workspaces[j], path))
            ==> !is_listed(workspaces, path),
{
}

/// Activating a workspace puts its path behind the others where it is not listed, and changes
/// nothing where it is; the registry and the running servers stay.
pub proof fn law_activation_adds_one<C>(m: ManagerView<C>, path: Seq<u8>)
    ensures
        activated(m, path).config == m.config,
        activated(m, path).clients == m.clients,
        is_listed(m.workspaces, path) ==> activated(m, path).workspaces == m.workspaces,
        !is_listed(m.workspaces, path) ==> activated(m, path).workspaces == m.workspaces.push(path),
{
}

/// Deactivating a workspace drops it and the servers under it, wherever they stand in their
/// lists, and keeps every other one in its order; the registry stays.
pub proof fn law_deactivation_keeps_the_order<C>(
    m: ManagerView<C>,
    last: Seq<u8>,
    server: RunningView<C>,
    path: Seq<u8>,
)
    ensures
        deactivated(m, path).config == m.config,
        m.workspaces.len() == 0 ==> deactivated(m, path).workspaces.len() == 0,
        m.clients.len() == 0 ==> deactivated(m, path).clients.len() == 0,
        deactivated(ManagerView { workspaces: m.workspaces.push(last), ..m }, path).workspaces
            == if paths::same_path(last, path) {
            deactivated(m, path).workspaces
        } else {
            deactivated(m, path).workspaces.push(last)
        },
        deactivated(ManagerView { clients: m.clients.push(server), ..m }, path).clients
            == if paths::same_path(server.root, path) {
            deactivated(m, path).clients
        } else {
            deactivated(m, path).clients.push(server)
        },
{
    assert(m.workspaces.push(last).drop_last() =~= m.workspaces);
    assert(m.clients.push(server).drop_last() =~= m.clients);
}

/// The servers under a root are exactly those with that root, and the others are exactly those
/// with another, each in their order.
pub proof fn law_servers_under<C>(
    clients: Seq<RunningView<C>>,
    server: RunningView<C>,
    root: Seq<u8>,
)
    ensures
        servers_under(Seq::<RunningView<C>>::empty(), root, true).len() == 0,
        servers_under(Seq::<RunningView<C>>::empty(), root, false).len() == 0,
        paths::same_path(server.root, root) ==> {
            &&& servers_under(clients.push(server), root, true) == servers_under(
                clients,
                root,
                true,
            ).push(server)
            &&& servers_under(clients.push(server), root, false) == servers_under(
                clients,
                root,
                false,
            )
        },
        !paths::same_path(server.root, root) ==> {
            &&& servers_under(clients.push(server), root, true) == servers_under(
                clients,
                root,
                true,
            )
            &&& servers_under(clients.push(server), root, false) == servers_under(
                clients,
                root,
                false,
            ).push(server)
        },
{
    assert(clients.push(server).drop_last() =~= clients);
}

/// A noted server takes the place of the one that serves the same pair, or stands behind the
/// others where none does; every other server, the workspaces and the registry stay.
pub proof fn law_noted_server<C>(m: ManagerView<C>, server: RunningView<C>, k: int)
    requires
        manager_wf(m),
    ensures
        running(m, server).config == m.config,
        running(m, server).workspaces == m.workspaces,
        0 <= k < m.clients.len() && paths::same_path(m.clients[k].root, server.root)
            && m.clients[k].language_id == server.language_id ==> running(m, server).clients
            == m.clients.update(k, server),
        (forall|i: int|
            0 <= i < m.clients.len() ==> !(paths::same_path(
                (#[trigger] m.clients[i]).root,
                server.root,
            ) && m.clients[i].language_id == server.language_id)) ==> running(m, server).clients
            == m.clients.push(server),
{
    lemma_serving(m.clients, server.root, server.language_id, 0);
    if 0 <= k < m.clients.len() && serves(m.clients[k], server.root, server.language_id) {
        assert forall|i: int| 0 <= i < k implies !serves(
            #[trigger] m.clients[i],
            server.root,
            server.language_id,
        ) by {
            assert(!serves(m.clients[i], m.clients[k].root, m.clients[k].language_id));
        }
        lemma_serving_at(m.clients, server.root, server.language_id, 0, k);
    }
    if forall|i: int|
        0 <= i < m.clients.len() ==> !(paths::same_path(
            (#[trigger] m.clients[i]).root,
            server.root,
        ) && m.clients[i].language_id == server.language_id) {
        assert(serving(m.clients, server.root, server.language_id, 0) is None);
    }
}

/// Where a client is to be made for a file, it is for the longest activated workspace that
/// contains the file, and for the first server of the registry that claims its extension.
pub proof fn law_client_is_made_for<C>(
    m: Manager<C>,
    file: PathBuf,
    route: Route<C>,
    i: int,
    j: int,
)
    requires
        call_ensures(Manager::<C>::client_for, (&m, &file), route),
        route is Spawn,
    ensures
        ({
            let root = paths::path_bytes(*route->Spawn_root);
            let server = *route->Spawn_server;
            let wanted = paths::path_bytes(file);
            &&& m@.workspaces.contains(root)
            &&& paths::contains_path(root, wanted)
            &&& 0 <= i < m@.workspaces.len() && paths::contains_path(m@.workspaces[i], wanted)
                ==> m@.workspaces[i].len() <= root.len()
            &&& m@.config.servers@.contains(server)
            &&& paths::extension_text(wanted) is Some
            &&& server.claims(paths::extension_text(wanted)->Some_0)
            &&& 0 <= j < m@.config.servers@.len() && m@.config.servers@[j].claims(
                paths::extension_text(wanted)->Some_0,
            ) ==> exists|s: int| 0 <= s <= j && #[trigger] m@.config.servers@[s] == server
        }),
{
    let wanted = paths::path_bytes(file);
    law_route(m@, wanted, route);
    law_longest_workspace(m@.workspaces, wanted);
    let ext = paths::extension_text(wanted)->Some_0;
    config::law_first_claiming(m@.config.servers@, ext, 0);
    let s = config::server_for_path(m@.config.servers@, wanted)->Some_0;
    assert(m@.config.servers@[s] == *route->Spawn_server);
    if 0 <= j < m@.config.servers@.len() && m@.config.servers@[j].claims(ext) {
        assert(s <= j);
    }
}

/// A manager begins with its registry, and without workspaces and servers.
pub proof fn law_new_manager<C>(config: Config, m: Manager<C>)
    requires
        call_ensures(Manager::<C>::new, (config,), m),
    ensures
        m@.config == config,
        m@.workspaces.len() == 0,
        m@.clients.len() == 0,
        manager_wf(m@),
{
}

/// Activating a workspace has its path listed once, behind the others.
pub proof fn law_activated_workspace<C>(m: &mut Manager<C>, path: PathBuf, done: ())
    requires
        call_ensures(Manager::<C>::activate_workspace, (m, &path), done),
    ensures
        final(m)@.config == old(m)@.config,
        final(m)@.clients == old(m)@.clients,
        is_listed(old(m)@.workspaces, paths::path_bytes(path)) ==> final(m)@.workspaces == old(
            m,
        )@.workspaces,
        !is_listed(old(m)@.workspaces, paths::path_bytes(path)) ==> final(m)@.workspaces == old(
            m,
        )@.workspaces.push(paths::path_bytes(path)),
{
}

/// Deactivating a workspace says whether it was active and hands out the clients of the servers
/// under it, in their order; a path that could not be resolved changes nothing.
pub proof fn law_deactivated_workspace<C>(
    m: &mut Manager<C>,
    path: PathBuf,
    done: (bool, Vec<C>),
    i: int,
)
    requires
        call_ensures(Manager::<C>::deactivate_workspace, (m, Some(&path)), done),
    ensures
        ({
            let root = paths::path_bytes(path);
            let stopped = servers_under(old(m)@.clients, root, true);
            &&& done.0 == is_listed(old(m)@.workspaces, root)
            &&& done.1@.len() == stopped.len()
            &&& 0 <= i < stopped.len() ==> done.1@[i] == stopped[i].client
            &&& final(m)@ == deactivated(old(m)@, root)
        }),
{
}

/// Deactivating without a path does nothing.
pub proof fn law_nothing_to_deactivate<C>(m: &mut Manager<C>, done: (bool, Vec<C>))
    requires
        call_ensures(Manager::<C>::deactivate_workspace, (m, None::<&PathBuf>), done),
    ensures
        !done.0,
        done.1@.len() == 0,
        final(m)@ == old(m)@,
{
}

/// A server is noted under its root, its language and its client.
pub proof fn law_inserted_client<C>(
    m: &mut Manager<C>,
    root: PathBuf,
    language_id: &str,
    client: C,
    done: (),
)
    requires
        call_ensures(Manager::<C>::insert_client, (m, &root, language_id, client), done),
    ensures
        final(m)@ == running(
            old(m)@,
            RunningView { root: paths::path_bytes(root), language_id: language_id@, client },
        ),
{
}

/// A list of running servers holds what each of them holds, in its order.
pub proof fn law_running_views<C>(list: Seq<Running<C>>, i: int)
    ensures
        running_views(list).len() == list.len(),
        0 <= i < list.len() ==> running_views(list)[i] == list[i]@,
{
}

} // verus!
