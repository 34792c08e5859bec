//! The windows of the compositor, which of them are saved, and how each is put back in place.

use vstd::prelude::*;

use crate::text::{
    decimal, decimal_grows_by_digits, decimal_has_only_digits, decimals_differ, push_decimal,
};
use std::collections::HashSet;

verus! {

/// How much of the screen a window covers.
#[derive(Debug, Clone, Copy)]
pub enum FullscreenMode {
    Normal,
    Maximized,
    Fullscreen,
    MaximizedFullscreen,
}

impl FullscreenMode {
    /// The number by which the compositor knows the mode.
    pub open spec fn number(self) -> int {
        match self {
            FullscreenMode::Normal => 0,
            FullscreenMode::Maximized => 1,
            FullscreenMode::Fullscreen => 2,
            FullscreenMode::MaximizedFullscreen => 3,
        }
    }

    fn code(self) -> (r: i32)
        ensures
            r == self.number(),
    {
        match self {
            FullscreenMode::Normal => 0,
            FullscreenMode::Maximized => 1,
            FullscreenMode::Fullscreen => 2,
            FullscreenMode::MaximizedFullscreen => 3,
        }
    }
}

/// What a session keeps of a window.
#[derive(Debug, Clone, Copy)]
pub struct Client {
    pub pid: i32,
    pub monitor: i128,
    pub workspace_id: i32,
    pub floating: bool,
    pub at: (i16, i16),
    pub size: (i16, i16),
    pub pinned: bool,
    pub fullscreen: FullscreenMode,
}

/// The rules that put a window back in place.
pub open spec fn client_properties(client: Client) -> Seq<Seq<char>> {
    let place = seq![
        "monitor "@ + decimal(client.monitor as int),
        "workspace "@ + decimal(client.workspace_id as int) + " silent"@,
    ];
    let float = if client.floating {
        seq!["float"@]
    } else {
        Seq::empty()
    };
    let shape = seq![
        "move "@ + decimal(client.at.0 as int) + " "@ + decimal(client.at.1 as int),
        "size "@ + decimal(client.size.0 as int) + " "@ + decimal(client.size.1 as int),
    ];
    let pin = if client.pinned {
        seq!["pin"@]
    } else {
        Seq::empty()
    };
    let screen = seq!["fullscreenstate "@ + decimal(client.fullscreen.number())];
    place + float + shape + pin + screen
}

/// `word`, a space and two numbers with a space between them.
fn pair_property(word: &str, pair: (i16, i16)) -> (r: String)
    ensures
        r@ == word@ + decimal(pair.0 as int) + " "@ + decimal(pair.1 as int),
{
    let mut text = word.to_owned();
    push_decimal(&mut text, pair.0 as i128);
    text.append(" ");
    push_decimal(&mut text, pair.1 as i128);
    text
}

/// The rules that put `client` back in place.
pub fn collect_properties(client: &Client) -> (r: Vec<String>)
    ensures
        r.deep_view() == client_properties(*client),
{
    let mut props: Vec<String> = Vec::new();
    let mut monitor = "monitor ".to_owned();
    push_decimal(&mut monitor, client.monitor);
    props.push(monitor);
    let mut workspace = "workspace ".to_owned();
    push_decimal(&mut workspace, client.workspace_id as i128);
    workspace.append(" silent");
    props.push(workspace);
    if client.floating {
        props.push("float".to_owned());
    }
    props.push(pair_property("move ", client.at));
    props.push(pair_property("size ", client.size));
    if client.pinned {
        props.push("pin".to_owned());
    }
    let mut screen = "fullscreenstate ".to_owned();
    push_decimal(&mut screen, client.fullscreen.code() as i128);
    props.push(screen);
    assert(props.deep_view() =~= client_properties(*client));
    props
}

/// What is recorded of a window that neither floats nor is pinned: its monitor, its workspace, its
/// position, its size and the number of its fullscreen state, in this order.
pub proof fn plain_window_is_recorded_by_its_place(client: Client)
    requires
        !client.floating,
        !client.pinned,
    ensures
        client_properties(client) == seq![
            "monitor "@ + decimal(client.monitor as int),
            "workspace "@ + decimal(client.workspace_id as int) + " silent"@,
            "move "@ + decimal(client.at.0 as int) + " "@ + decimal(client.at.1 as int),
            "size "@ + decimal(client.size.0 as int) + " "@ + decimal(client.size.1 as int),
            "fullscreenstate "@ + (match client.fullscreen {
                FullscreenMode::Normal => "0"@,
                FullscreenMode::Maximized => "1"@,
                FullscreenMode::Fullscreen => "2"@,
                FullscreenMode::MaximizedFullscreen => "3"@,
            }),
        ],
{
    reveal_strlit("0");
    reveal_strlit("1");
    reveal_strlit("2");
    reveal_strlit("3");
    let number = decimal(client.fullscreen.number());
    decimal_grows_by_digits(0, client.fullscreen.number());
    match client.fullscreen {
        FullscreenMode::Normal => assert(number =~= "0"@),
        FullscreenMode::Maximized => assert(number =~= "1"@),
        FullscreenMode::Fullscreen => assert(number =~= "2"@),
        FullscreenMode::MaximizedFullscreen => assert(number =~= "3"@),
    }
}

/// Floating adds one rule to what is recorded of a window and changes nothing else, and so does
/// being pinned, each whether or not the other holds: "float" behind the workspace, "pin" in front
/// of the fullscreen state.
pub proof fn floating_and_pinned_each_add_their_rule(client: Client)
    ensures
        client_properties(Client { floating: true, ..client }) == client_properties(
            Client { floating: false, ..client },
        ).insert(2, "float"@),
        client_properties(Client { pinned: true, ..client }) == client_properties(
            Client { pinned: false, ..client },
        ).insert(
            client_properties(Client { pinned: false, ..client }).len() - 1,
            "pin"@,
        ),
{
    let floats = client_properties(Client { floating: true, ..client });
    let rests = client_properties(Client { floating: false, ..client });
    assert(floats =~= rests.insert(2, "float"@));
    let stays = client_properties(Client { pinned: true, ..client });
    let goes = client_properties(Client { pinned: false, ..client });
    assert(stays =~= goes.insert(goes.len() - 1, "pin"@));
}

/// "float" is recorded of exactly the windows that float, "pin" of exactly those that are pinned,
/// and of every window one rule for each of monitor, workspace, position, size and fullscreen
/// state.
pub proof fn each_rule_says_what_it_stands_for(client: Client)
    ensures
        ({
            let rules = client_properties(client);
            &&& rules.contains("float"@) <==> client.floating
            &&& rules.contains("pin"@) <==> client.pinned
            &&& rules.contains("monitor "@ + decimal(client.monitor as int))
            &&& rules.contains("workspace "@ + decimal(client.workspace_id as int) + " silent"@)
            &&& rules.contains(
                "move "@ + decimal(client.at.0 as int) + " "@ + decimal(client.at.1 as int),
            )
            &&& rules.contains(
                "size "@ + decimal(client.size.0 as int) + " "@ + decimal(client.size.1 as int),
            )
            &&& rules.len() == 5 + (if client.floating {
                1int
            } else {
                0
            }) + (if client.pinned {
                1int
            } else {
                0
            })
        }),
{
    lemma_words();
    let rules = client_properties(client);
    let f: int = if client.floating {
        1
    } else {
        0
    };
    let p: int = if client.pinned {
        1
    } else {
        0
    };
    let monitor = "monitor "@ + decimal(client.monitor as int);
    let workspace = "workspace "@ + decimal(client.workspace_id as int) + " silent"@;
    let place = "move "@ + decimal(client.at.0 as int) + " "@ + decimal(client.at.1 as int);
    let size = "size "@ + decimal(client.size.0 as int) + " "@ + decimal(client.size.1 as int);
    let screen = "fullscreenstate "@ + decimal(client.fullscreen.number());
    assert(rules.len() == 5 + f + p);
    assert(rules[0] == monitor && rules[1] == workspace);
    assert(rules[2 + f] == place && rules[3 + f] == size);
    assert(rules[4 + f + p] == screen);
    assert(client.floating ==> rules[2] == "float"@);
    assert(client.pinned ==> rules[4 + f] == "pin"@);
    assert(monitor[0] == 'm' && workspace[0] == 'w' && place[0] == 'm' && size[0] == 's');
    assert(screen[0] == 'f' && screen[1] == 'u');
    if rules.contains("float"@) && !client.floating {
        let i = choose|i: int| 0 <= i < rules.len() && rules[i] == "float"@;
        assert(i == 0 || i == 1 || i == 2 || i == 3 || i == 4 || i == 5);
    }
    if rules.contains("pin"@) && !client.pinned {
        let i = choose|i: int| 0 <= i < rules.len() && rules[i] == "pin"@;
        assert(i == 0 || i == 1 || i == 2 || i == 3 || i == 4 || i == 5);
    }
}

proof fn lemma_words()
    ensures
        "monitor "@.len() == 8 && "monitor "@[0] == 'm',
        "workspace "@.len() == 10 && "workspace "@[0] == 'w',
        "float"@.len() == 5 && "float"@[0] == 'f' && "float"@[1] == 'l',
        "move "@.len() == 5 && "move "@[0] == 'm',
        "size "@.len() == 5 && "size "@[0] == 's',
        "pin"@.len() == 3 && "pin"@[0] == 'p',
        "fullscreenstate "@.len() == 16 && "fullscreenstate "@[0] == 'f'
            && "fullscreenstate "@[1] == 'u',
        " silent"@.len() == 7,
        " "@ == seq![' '],
{
    reveal_strlit("monitor ");
    reveal_strlit("workspace ");
    reveal_strlit("float");
    reveal_strlit("move ");
    reveal_strlit("size ");
    reveal_strlit("pin");
    reveal_strlit("fullscreenstate ");
    reveal_strlit(" silent");
    reveal_strlit(" ");
    assert(" "@ =~= seq![' ']);
}

/// A number between the same two texts is the same number.
proof fn lemma_number_between(before: Seq<char>, a: int, b: int, after: Seq<char>)
    requires
        before + decimal(a) + after == before + decimal(b) + after,
    ensures
        a == b,
{
    let one = before + decimal(a) + after;
    let other = before + decimal(b) + after;
    assert(one.len() == before.len() + decimal(a).len() + after.len());
    assert(other.len() == before.len() + decimal(b).len() + after.len());
    assert(decimal(a) =~= one.subrange(
        before.len() as int,
        (before.len() + decimal(a).len()) as int,
    ));
    assert(decimal(b) =~= other.subrange(
        before.len() as int,
        (before.len() + decimal(b).len()) as int,
    ));
    decimals_differ(a, b);
}

/// Two pairs of numbers behind the same word are the same pairs.
proof fn lemma_pair_behind(word: Seq<char>, a: (int, int), b: (int, int))
    requires
        word + decimal(a.0) + " "@ + decimal(a.1) == word + decimal(b.0) + " "@ + decimal(b.1),
    ensures
        a == b,
{
    lemma_words();
    decimal_has_only_digits(a.0);
    decimal_has_only_digits(b.0);
    let one = word + decimal(a.0) + " "@ + decimal(a.1);
    let other = word + decimal(b.0) + " "@ + decimal(b.1);
    let w = word.len() as int;
    let m = decimal(a.0).len() as int;
    let n = decimal(b.0).len() as int;
    assert(one[w + m] == ' ' && other[w + n] == ' ');
    if m < n {
        assert(other[w + m] == decimal(b.0)[m]);
    }
    if n < m {
        assert(one[w + n] == decimal(a.0)[n]);
    }
    assert(decimal(a.0) =~= one.subrange(w, w + m));
    assert(decimal(b.0) =~= other.subrange(w, w + n));
    decimals_differ(a.0, b.0);
    assert(decimal(a.1) =~= one.subrange(w + m + 1, one.len() as int));
    assert(decimal(b.1) =~= other.subrange(w + n + 1, other.len() as int));
    decimals_differ(a.1, b.1);
}

/// The place of a window can be read back from what is recorded of it: windows of which the same
/// is recorded agree in everything but their process.
pub proof fn placement_reads_back(a: Client, b: Client)
    requires
        client_properties(a) == client_properties(b),
    ensures
        a.monitor == b.monitor,
        a.workspace_id == b.workspace_id,
        a.floating == b.floating,
        a.at == b.at,
        a.size == b.size,
        a.pinned == b.pinned,
        a.fullscreen == b.fullscreen,
{
    each_rule_says_what_it_stands_for(a);
    each_rule_says_what_it_stands_for(b);
    let ra = client_properties(a);
    let rb = client_properties(b);
    let f: int = if a.floating {
        1
    } else {
        0
    };
    let none = Seq::<char>::empty();
    assert(ra[0] + none =~= ra[0] && rb[0] + none =~= rb[0]);
    lemma_number_between("monitor "@, a.monitor as int, b.monitor as int, none);
    assert(ra[1] == rb[1]);
    lemma_number_between(
        "workspace "@,
        a.workspace_id as int,
        b.workspace_id as int,
        " silent"@,
    );
    assert(ra[2 + f] == rb[2 + f] && ra[3 + f] == rb[3 + f]);
    lemma_pair_behind(
        "move "@,
        (a.at.0 as int, a.at.1 as int),
        (b.at.0 as int, b.at.1 as int),
    );
    lemma_pair_behind(
        "size "@,
        (a.size.0 as int, a.size.1 as int),
        (b.size.0 as int, b.size.1 as int),
    );
    let sa = "fullscreenstate "@ + decimal(a.fullscreen.number());
    let sb = "fullscreenstate "@ + decimal(b.fullscreen.number());
    assert(ra.last() == sa && rb.last() == sb);
    assert(sa + none =~= sa && sb + none =~= sb);
    lemma_number_between(
        "fullscreenstate "@,
        a.fullscreen.number(),
        b.fullscreen.number(),
        none,
    );
}

/// Whether the window at `i` is saved: with `skip_duplicate_pids`, only the first one of each
/// process is.
pub open spec fn is_kept(clients: Seq<Client>, skip_duplicate_pids: bool, i: int) -> bool {
    skip_duplicate_pids ==> forall|j: int| 0 <= j < i ==> #[trigger] clients[j].pid
        != clients[i].pid
}

/// The windows that are saved out of the first `n`, in order.
pub open spec fn kept_clients(clients: Seq<Client>, skip_duplicate_pids: bool, n: int) -> Seq<
    Client,
>
    decreases n,
{
    if n <= 0 {
        Seq::empty()
    } else if is_kept(clients, skip_duplicate_pids, n - 1) {
        kept_clients(clients, skip_duplicate_pids, n - 1).push(clients[n - 1])
    } else {
        kept_clients(clients, skip_duplicate_pids, n - 1)
    }
}

/// The windows to save, in order.
pub open spec fn selection(clients: Seq<Client>, skip_duplicate_pids: bool) -> Seq<Client> {
    kept_clients(clients, skip_duplicate_pids, clients.len() as int)
}

proof fn lemma_kept_occurs(clients: Seq<Client>, skip: bool, n: int, k: int)
    requires
        0 <= n <= clients.len(),
        0 <= k < kept_clients(clients, skip, n).len(),
    ensures
        exists|i: int| 0 <= i < n && #[trigger] clients[i] == kept_clients(clients, skip, n)[k],
    decreases n,
{
    if n > 0 {
        let before = kept_clients(clients, skip, n - 1);
        if k < before.len() {
            lemma_kept_occurs(clients, skip, n - 1, k);
        } else {
            assert(clients[n - 1] == kept_clients(clients, skip, n)[k]);
        }
    }
}

proof fn lemma_kept_distinct(clients: Seq<Client>, n: int)
    requires
        0 <= n <= clients.len(),
    ensures
        forall|a: int, b: int|
            0 <= a < b < kept_clients(clients, true, n).len() ==> (#[trigger] kept_clients(
                clients,
                true,
                n,
            )[a]).pid != (#[trigger] kept_clients(clients, true, n)[b]).pid,
    decreases n,
{
    if n > 0 {
        lemma_kept_distinct(clients, n - 1);
        let before = kept_clients(clients, true, n - 1);
        let after = kept_clients(clients, true, n);
        assert forall|a: int, b: int| 0 <= a < b < after.len() implies (#[trigger] after[a]).pid
            != (#[trigger] after[b]).pid by {
            if b < before.len() {
                assert(before[a].pid != before[b].pid);
            } else {
                assert(after[b] == clients[n - 1] && after[a] == before[a]);
                lemma_kept_occurs(clients, true, n - 1, a);
            }
        }
    }
}

/// With `skip_duplicate_pids` no two saved windows belong to the same process.
pub proof fn selection_has_distinct_pids(clients: Seq<Client>)
    ensures
        forall|a: int, b: int|
            0 <= a < b < selection(clients, true).len() ==> (#[trigger] selection(
                clients,
                true,
            )[a]).pid != (#[trigger] selection(clients, true)[b]).pid,
{
    lemma_kept_distinct(clients, clients.len() as int);
}

proof fn lemma_pid_kept(clients: Seq<Client>, skip: bool, n: int, i: int)
    requires
        0 <= i < n <= clients.len(),
    ensures
        exists|k: int|
            0 <= k < kept_clients(clients, skip, n).len() && (#[trigger] kept_clients(
                clients,
                skip,
                n,
            )[k]).pid == clients[i].pid,
    decreases n,
{
    let before = kept_clients(clients, skip, n - 1);
    let after = kept_clients(clients, skip, n);
    if i < n - 1 {
        lemma_pid_kept(clients, skip, n - 1, i);
        let k = choose|k: int| 0 <= k < before.len() && (#[trigger] before[k]).pid == clients[i].pid;
        assert(after[k] == before[k]);
    } else if is_kept(clients, skip, n - 1) {
        assert(after[before.len() as int] == clients[i]);
    } else {
        let j = choose|j: int| 0 <= j < n - 1 && (#[trigger] clients[j]).pid == clients[n - 1].pid;
        lemma_pid_kept(clients, skip, n - 1, j);
        let k = choose|k: int| 0 <= k < before.len() && (#[trigger] before[k]).pid == clients[j].pid;
        assert(after[k] == before[k]);
    }
}

/// Every process that has a window has a saved window.
pub proof fn selection_covers_every_pid(clients: Seq<Client>, skip_duplicate_pids: bool, i: int)
    requires
        0 <= i < clients.len(),
    ensures
        exists|k: int|
            0 <= k < selection(clients, skip_duplicate_pids).len() && (#[trigger] selection(
                clients,
                skip_duplicate_pids,
            )[k]).pid == clients[i].pid,
{
    let n = clients.len() as int;
    lemma_pid_kept(clients, skip_duplicate_pids, n, i);
    let k = choose|k: int|
        0 <= k < kept_clients(clients, skip_duplicate_pids, n).len() && (#[trigger] kept_clients(
            clients,
            skip_duplicate_pids,
            n,
        )[k]).pid == clients[i].pid;
    assert(selection(clients, skip_duplicate_pids)[k].pid == clients[i].pid);
}

/// Without `skip_duplicate_pids` every window is saved.
pub proof fn selection_keeps_all(clients: Seq<Client>)
    ensures
        selection(clients, false) == clients,
{
    lemma_keeps_all(clients, clients.len() as int);
    assert(clients.take(clients.len() as int) =~= clients);
}

proof fn lemma_keeps_all(clients: Seq<Client>, n: int)
    requires
        0 <= n <= clients.len(),
    ensures
        kept_clients(clients, false, n) == clients.take(n),
    decreases n,
{
    if n > 0 {
        lemma_keeps_all(clients, n - 1);
    }
    assert(kept_clients(clients, false, n) =~= clients.take(n));
}

/// The windows that are saved are taken from the list in its order: each stands at a place in it,
/// behind the places of those before. With `skip_duplicate_pids` it is the first window of its
/// process, and a window of which no earlier one belongs to the same process has its place among
/// them; without, every window has.
pub proof fn selection_keeps_the_order(clients: Seq<Client>, skip_duplicate_pids: bool) -> (places:
    Seq<int>)
    ensures
        places.len() == selection(clients, skip_duplicate_pids).len(),
        forall|k: int|
            0 <= k < places.len() ==> 0 <= #[trigger] places[k] < clients.len() && selection(
                clients,
                skip_duplicate_pids,
            )[k] == clients[places[k]],
        forall|k: int, l: int| 0 <= k < l < places.len() ==> places[k] < places[l],
        skip_duplicate_pids ==> forall|k: int, j: int|
            0 <= k < places.len() && 0 <= j < #[trigger] places[k] ==> #[trigger] clients[j].pid
                != clients[places[k]].pid,
        forall|i: int|
            0 <= i < clients.len() && (!skip_duplicate_pids || forall|j: int|
                0 <= j < i ==> #[trigger] clients[j].pid != clients[i].pid)
                ==> #[trigger] places.contains(i),
{
    lemma_places(clients, skip_duplicate_pids, clients.len() as int)
}

proof fn lemma_places(clients: Seq<Client>, skip: bool, n: int) -> (places: Seq<int>)
    requires
        0 <= n <= clients.len(),
    ensures
        places.len() == kept_clients(clients, skip, n).len(),
        forall|k: int|
            0 <= k < places.len() ==> 0 <= #[trigger] places[k] < n && kept_clients(
                clients,
                skip,
                n,
            )[k] == clients[places[k]],
        forall|k: int, l: int| 0 <= k < l < places.len() ==> places[k] < places[l],
        skip ==> forall|k: int, j: int|
            0 <= k < places.len() && 0 <= j < #[trigger] places[k] ==> #[trigger] clients[j].pid
                != clients[places[k]].pid,
        forall|i: int|
            0 <= i < n && (!skip || forall|j: int|
                0 <= j < i ==> #[trigger] clients[j].pid != clients[i].pid)
                ==> #[trigger] places.contains(i),
    decreases n,
{
    if n == 0 {
        Seq::empty()
    } else {
        let before = lemma_places(clients, skip, n - 1);
        if is_kept(clients, skip, n - 1) {
            let places = before.push(n - 1);
            assert forall|i: int|
                0 <= i < n && (!skip || forall|j: int|
                    0 <= j < i ==> #[trigger] clients[j].pid != clients[i].pid) implies
                #[trigger] places.contains(i) by {
                if i < n - 1 {
                    assert(before.contains(i));
                    let k = choose|k: int| 0 <= k < before.len() && before[k] == i;
                    assert(places[k] == i);
                } else {
                    assert(places[before.len() as int] == i);
                }
            }
            places
        } else {
            before
        }
    }
}

/// The windows to save, in order.
pub fn select_clients(clients: &Vec<Client>, skip_duplicate_pids: bool) -> (r: Vec<Client>)
    ensures
        r@ == selection(clients@, skip_duplicate_pids),
{
    broadcast use vstd::std_specs::hash::group_hash_axioms;

    let mut seen: HashSet<i32> = HashSet::new();
    let mut kept: Vec<Client> = Vec::new();
    let mut i: usize = 0;
    while i < clients.len()
        invariant
            i <= clients.len(),
            skip_duplicate_pids ==> forall|pid: i32| #[trigger]
                seen@.contains(pid) <==> exists|j: int|
                    0 <= j < i && (#[trigger] clients@[j]).pid == pid,
            kept@ == kept_clients(clients@, skip_duplicate_pids, i as int),
        decreases clients.len() - i,
    {
        let client = clients[i];
        let fresh = !skip_duplicate_pids || seen.insert(client.pid);
        assert(fresh == is_kept(clients@, skip_duplicate_pids, i as int));
        if fresh {
            kept.push(client);
        }
        i = i + 1;
    }
    kept
}

} // verus!
