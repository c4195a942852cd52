//! The table of fetched documents that one resolution works from.
//!
//! The resolver itself never touches the network: it reads every document
//! from a [`DocTable`], which maps a URL to the outcome of fetching and
//! parsing it once. The caller fills the table (fetching is its business)
//! and the resolver is a pure function of the table, the input tree, the
//! depth budget and the context policy.

use vstd::prelude::*;

use crate::codec::{parse_json_text, parsed_json};
use crate::node::{str_eq, Entry, EntryView, Node, NodeView};

verus! {

/// The outcome of fetching one URL and parsing the body.
pub enum FetchOutcome {
    /// The transfer itself failed: no body was obtained.
    Transport,
    /// The body was not JSON; carries the parse diagnostic.
    NotJson(String),
    /// The body was JSON, but not an object at the top level.
    NotObject,
    /// The body parsed to an object with these fields.
    Doc(Vec<Entry>),
}

/// The model of a fetch outcome.
pub enum OutcomeView {
    Transport,
    NotJson(Seq<char>),
    NotObject,
    Doc(Seq<EntryView>),
}

impl DeepView for FetchOutcome {
    type V = OutcomeView;

    open spec fn deep_view(&self) -> OutcomeView {
        match self {
            FetchOutcome::Transport => OutcomeView::Transport,
            FetchOutcome::NotJson(cause) => OutcomeView::NotJson(cause@),
            FetchOutcome::NotObject => OutcomeView::NotObject,
            FetchOutcome::Doc(fields) => OutcomeView::Doc(fields.deep_view()),
        }
    }
}

/// The map that a list of recorded responses denotes; an earlier entry wins
/// over a later one with the same URL.
pub open spec fn table_view(entries: Seq<(Seq<char>, OutcomeView)>) -> Map<
    Seq<char>,
    OutcomeView,
>
    decreases entries.len(),
{
    if entries.len() == 0 {
        Map::empty()
    } else {
        table_view(entries.drop_first()).insert(entries[0].0, entries[0].1)
    }
}

/// The documents available to one resolution, keyed by URL.
pub struct DocTable {
    entries: Vec<(String, FetchOutcome)>,
}

impl View for DocTable {
    type V = Map<Seq<char>, OutcomeView>;

    closed spec fn view(&self) -> Map<Seq<char>, OutcomeView> {
        table_view(self.entries.deep_view())
    }
}

impl DocTable {
    /// An empty table: no URL is known.
    pub fn new() -> (t: DocTable)
        ensures
            t@ == Map::<Seq<char>, OutcomeView>::empty(),
    {
        let t = DocTable { entries: Vec::new() };
        proof {
            assert(t.entries.deep_view() =~= Seq::<(Seq<char>, OutcomeView)>::empty());
        }
        t
    }

    /// Records the response for one URL: `None` when the transfer failed,
    /// `Some` of the body text otherwise. The body is parsed here, once;
    /// a later entry for the same URL is shadowed by this one.
    pub fn record(&mut self, url: String, body: Option<String>)
        ensures
            match body {
                Option::None => final(self)@ == old(self)@.insert(url@, OutcomeView::Transport),
                Option::Some(b) => match parsed_json(b@) {
                    Option::Some(NodeView::Obj(f)) => final(self)@ == old(self)@.insert(
                        url@,
                        OutcomeView::Doc(f),
                    ),
                    Option::Some(_) => final(self)@ == old(self)@.insert(
                        url@,
                        OutcomeView::NotObject,
                    ),
                    Option::None => exists|cause: Seq<char>|
                        final(self)@ == old(self)@.insert(url@, OutcomeView::NotJson(cause)),
                },
            },
    {
        let ghost url_view = url@;
        let outcome: FetchOutcome = match body {
            Option::None => FetchOutcome::Transport,
            Option::Some(b) => match parse_json_text(b.as_str()) {
                Result::Ok(n) => match n {
                    Node::Obj(fields) => {
                        proof {
                            crate::node::lemma_obj_view(fields);
                        }
                        FetchOutcome::Doc(fields)
                    },
                    other => FetchOutcome::NotObject,
                },
                Result::Err(cause) => FetchOutcome::NotJson(cause),
            },
        };
        let ghost out_view = outcome.deep_view();
        let ghost before = self.entries.deep_view();
        self.entries.insert(0, (url, outcome));
        proof {
            let new_dv = self.entries.deep_view();
            assert(new_dv =~= before.insert(0, (url_view, out_view)));
            assert(new_dv[0] == (url_view, out_view));
            assert(new_dv.drop_first() =~= before);
            assert(table_view(new_dv) == table_view(before).insert(url_view, out_view));
            if out_view is NotJson {
                assert(self@ == old(self)@.insert(
                    url_view,
                    OutcomeView::NotJson(out_view->NotJson_0),
                ));
            }
        }
    }

    /// The recorded outcome for a URL, or `None` when the URL was never
    /// recorded. The first (most recent) entry for the URL wins.
    pub fn lookup(&self, url: &str) -> (r: Option<&FetchOutcome>)
        ensures
            match r {
                Option::Some(o) => self@.contains_key(url@) && self@[url@] == o.deep_view(),
                Option::None => !self@.contains_key(url@),
            },
    {
        let ghost dv = self.entries.deep_view();
        let mut i: usize = 0;
        proof {
            assert(dv.skip(0) =~= dv);
        }
        while i < self.entries.len()
            invariant
                0 <= i <= self.entries.len(),
                dv == self.entries.deep_view(),
                dv.len() == self.entries@.len(),
                table_view(dv).contains_key(url@) == table_view(dv.skip(i as int)).contains_key(
                    url@,
                ),
                table_view(dv).contains_key(url@) ==> table_view(dv)[url@] == table_view(
                    dv.skip(i as int),
                )[url@],
            decreases self.entries.len() - i,
        {
            let entry = &self.entries[i];
            proof {
                assert(dv.skip(i as int)[0] == dv[i as int]);
                assert(dv.skip(i as int).drop_first() =~= dv.skip(i as int + 1));
            }
            if str_eq(entry.0.as_str(), url) {
                return Some(&entry.1);
            }
            i = i + 1;
        }
        proof {
            assert(dv.skip(self.entries@.len() as int) =~= Seq::empty());
        }
        None
    }

    /// Whether the table has a recorded outcome for this URL.
    pub fn contains(&self, url: &str) -> (r: bool)
        ensures
            r == self@.contains_key(url@),
    {
        self.lookup(url).is_some()
    }
}

} // verus!
