//! Clients: the names offered when a project is created, and the changes
//! to the list of them.

use vstd::prelude::*;
use vstd::string::*;
use crate::helpers::{lowercase_of, sanitize_string, sanitized};
use crate::sequences::{lemma_filter_start, lemma_filter_step, lemma_map_push};

verus! {

/// A client: the full name that is shown, and the short sanitized name that
/// goes into project names.
#[derive(Debug, PartialEq, Eq)]
pub struct Client {
    pub name: String,
    pub short_name: String,
}

/// What a client record holds, as plain values.
pub struct ClientView {
    pub name: Seq<char>,
    pub short_name: Seq<char>,
}

impl View for Client {
    type V = ClientView;

    open spec fn view(&self) -> ClientView {
        ClientView { name: self.name@, short_name: self.short_name@ }
    }
}

impl Clone for Client {
    fn clone(&self) -> (r: Self)
        ensures
            r == *self,
    {
        Client { name: self.name.clone(), short_name: self.short_name.clone() }
    }
}

/// The records of a list of clients, as plain values.
pub open spec fn clients_view(clients: Seq<Client>) -> Seq<ClientView> {
    clients.map_values(|c: Client| c@)
}

/// Whether the list holds a client with the name or the short name of `new`.
pub open spec fn has_duplicate(list: Seq<ClientView>, new: ClientView) -> bool {
    exists|i: int|
        0 <= i < list.len() && (list[i].name == new.name || list[i].short_name == new.short_name)
}

/// The list without the clients named `name`.
pub open spec fn without(list: Seq<ClientView>, name: Seq<char>) -> Seq<ClientView> {
    list.filter(|c: ClientView| c.name != name)
}

/// What is said when a client is added twice.
pub const DUPLICATE_CLIENT: &'static str = "Client with same name already exists.";

impl Client {
    /// Whether the list holds a client with the name or the short name of
    /// `new_client`.
    pub fn check_for_duplicate_clients(client_list: &Vec<Client>, new_client: &Client) -> (r: bool)
        ensures
            r == has_duplicate(clients_view(client_list@), new_client@),
    {
        let mut i: usize = 0;
        while i < client_list.len()
            invariant
                i <= client_list.len(),
                forall|k: int|
                    0 <= k < i ==> !(clients_view(client_list@)[k].name == new_client@.name
                        || clients_view(client_list@)[k].short_name == new_client@.short_name),
            decreases client_list.len() - i,
        {
            assert(clients_view(client_list@)[i as int] == client_list@[i as int]@);
            if client_list[i].name == new_client.name || client_list[i].short_name
                == new_client.short_name {
                return true;
            }
            i += 1;
        }
        false
    }

    /// The list of clients with a new client at its end. `clients` is the
    /// list as it was read, or why it could not be read, which is passed
    /// on. The short name is sanitized first; a client whose name or
    /// sanitized short name the list holds already is refused.
    pub fn add_client(name: &String, short_name: &String, clients: Result<Vec<Client>, String>) -> (r:
        Result<Vec<Client>, String>)
        ensures
            match clients {
                Err(e) => r == Err::<Vec<Client>, String>(e),
                Ok(list) => {
                    let new = ClientView {
                        name: name@,
                        short_name: sanitized(lowercase_of(short_name@)),
                    };
                    if has_duplicate(clients_view(list@), new) {
                        r is Err && r->Err_0@ == DUPLICATE_CLIENT@
                    } else {
                        r is Ok && clients_view(r->Ok_0@) == clients_view(list@).push(new)
                    }
                },
            },
    {
        let mut list = match clients {
            Ok(c) => c,
            Err(e) => {
                return Err(e);
            },
        };
        let new_client = Client {
            name: name.clone(),
            short_name: sanitize_string(short_name.clone()),
        };
        if Client::check_for_duplicate_clients(&list, &new_client) {
            return Err(String::from_str(DUPLICATE_CLIENT));
        }
        proof {
            lemma_map_push(list@, new_client, |c: Client| c@);
        }
        list.push(new_client);
        Ok(list)
    }

    /// The list of clients without those that have the name of `client`.
    /// `clients` is the list as it was read, or why it could not be read,
    /// which is passed on.
    pub fn remove_client(client: &Client, clients: Result<Vec<Client>, String>) -> (r: Result<
        Vec<Client>,
        String,
    >)
        ensures
            match clients {
                Err(e) => r == Err::<Vec<Client>, String>(e),
                Ok(list) => r is Ok && clients_view(r->Ok_0@) == without(
                    clients_view(list@),
                    client@.name,
                ),
            },
    {
        let list = match clients {
            Ok(c) => c,
            Err(e) => {
                return Err(e);
            },
        };
        let mut kept: Vec<Client> = Vec::new();
        let ghost all = clients_view(list@);
        let ghost keep = |c: ClientView| c.name != client@.name;
        let mut i: usize = 0;
        proof {
            lemma_filter_start(all, keep);
            assert(clients_view(kept@) =~= Seq::<ClientView>::empty());
        }
        while i < list.len()
            invariant
                i <= list.len(),
                all == clients_view(list@),
                keep == |c: ClientView| c.name != client@.name,
                clients_view(kept@) == all.take(i as int).filter(keep),
            decreases list.len() - i,
        {
            proof {
                lemma_filter_step(all, keep, i as int);
                assert(all[i as int] == list@[i as int]@);
            }
            if list[i].name != client.name {
                proof {
                    lemma_map_push(kept@, list@[i as int], |c: Client| c@);
                }
                kept.push(list[i].clone());
            }
            i += 1;
        }
        proof {
            lemma_filter_start(all, keep);
        }
        Ok(kept)
    }

    /// What is said when the list without a client could not be written.
    pub fn removal_failed(reason: &str) -> (r: String)
        ensures
            r@ == "Failed remove client: "@ + reason@,
    {
        let mut r = String::from_str("Failed remove client: ");
        r.append(reason);
        r
    }
}

} // verus!
