use vstd::prelude::*;
use vstd::std_specs::cmp::PartialEqSpecImpl;

use crate::name_order::same_text;

verus! {

/// Where a directory lives: on this machine, or behind an SSH address.
#[derive(Debug, Hash)]
pub enum Connection {
    LocalHost,
    SSH(String),
}

/// A connection as a value.
pub enum ConnectionView {
    LocalHost,
    SSH(Seq<char>),
}

impl View for Connection {
    type V = ConnectionView;

    open spec fn view(&self) -> ConnectionView {
        match self {
            Connection::LocalHost => ConnectionView::LocalHost,
            Connection::SSH(address) => ConnectionView::SSH(address@),
        }
    }
}

impl Clone for Connection {
    fn clone(&self) -> (copy: Connection)
        ensures
            copy@ == self@,
    {
        match self {
            Connection::LocalHost => Connection::LocalHost,
            Connection::SSH(address) => Connection::SSH(address.clone()),
        }
    }
}

impl PartialEq for Connection {
    fn eq(&self, other: &Connection) -> (equal: bool) {
        match (self, other) {
            (Connection::LocalHost, Connection::LocalHost) => true,
            (Connection::SSH(a), Connection::SSH(b)) => same_text(a.as_str(), b.as_str()),
            _ => false,
        }
    }
}

impl PartialEqSpecImpl for Connection {
    open spec fn obeys_eq_spec() -> bool {
        true
    }

    open spec fn eq_spec(&self, other: &Connection) -> bool {
        self@ == other@
    }
}

impl Eq for Connection {

}

/// What a pane is cached under: a connection and a path on it.
#[derive(Debug, Hash)]
pub struct KeyPath {
    pub conn: Connection,
    pub path: String,
}

/// A key as a value.
pub struct KeyPathView {
    pub conn: ConnectionView,
    pub path: Seq<char>,
}

impl View for KeyPath {
    type V = KeyPathView;

    open spec fn view(&self) -> KeyPathView {
        KeyPathView { conn: self.conn@, path: self.path@ }
    }
}

impl Clone for KeyPath {
    fn clone(&self) -> (copy: KeyPath)
        ensures
            copy@ == self@,
    {
        KeyPath { conn: self.conn.clone(), path: self.path.clone() }
    }
}

impl PartialEq for KeyPath {
    fn eq(&self, other: &KeyPath) -> (equal: bool) {
        self.conn == other.conn && same_text(self.path.as_str(), other.path.as_str())
    }
}

impl PartialEqSpecImpl for KeyPath {
    open spec fn obeys_eq_spec() -> bool {
        true
    }

    open spec fn eq_spec(&self, other: &KeyPath) -> bool {
        self@ == other@
    }
}

impl Eq for KeyPath {

}

} // verus!
