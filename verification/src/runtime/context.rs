//! The context of one message: its variables, its limits and the actions
//! that the script has asked for so far.

use vstd::prelude::*;
use vstd::string::StringExecFns;
use crate::compiler::error::Capability;
use crate::compiler::redirect::{ByTime, Notify, Ret};
use crate::compiler::tokens::{Fragment, StringItem};
use crate::runtime::message::Message;
use crate::text::{eq_ignore_case, text_eq_ignore_case};

verus! {

/// How urgent a notification is.
#[derive(Clone, Copy, Debug, PartialEq, Eq, Structural)]
pub enum Importance {
    High,
    Normal,
    Low,
}

/// Where a copy of a sent message is filed.
#[derive(Debug)]
pub struct FileCarbonCopy<T> {
    pub mailbox: T,
    pub mailbox_id: Option<T>,
    pub create: bool,
    pub flags: Vec<T>,
    pub special_use: Option<T>,
}

/// Who a generated message goes to.
#[derive(Debug)]
pub enum Recipient {
    Address(String),
    List(String),
    Group(Vec<String>),
}

/// What a script asks the delivery system to do.
#[derive(Debug)]
pub enum Action {
    Keep,
    Discard,
    Redirect {
        address: String,
        copy: bool,
        notify: Notify,
        return_of_content: Ret,
        by_time: ByTime<i64>,
    },
    SendMessage {
        recipient: Recipient,
        notify: Notify,
        return_of_content: Ret,
        by_time: ByTime<i64>,
        /// The place of the message among the generated messages.
        message_id: usize,
        fcc: Option<FileCarbonCopy<String>>,
    },
    Notify {
        method: String,
        from: Option<String>,
        importance: Importance,
        options: Vec<String>,
        message: Option<String>,
        fcc: Option<FileCarbonCopy<String>>,
    },
    UpdateMessage { bytes: Vec<u8> },
}

/// The variables of a script: those it has set by name, and the captures of
/// the last match by number.
#[derive(Debug)]
pub struct Variables {
    pub named: Vec<(String, String)>,
    pub matched: Vec<String>,
}

/// The limits that the host sets for a script.
#[derive(Debug)]
pub struct Runtime {
    /// The most redirects that a script may ask for, for one message.
    pub max_redirects: usize,
    /// The name of the host, for the ids of generated messages.
    pub hostname: String,
    /// The extensions that scripts may use.
    pub allowed_capabilities: Vec<Capability>,
}

/// The state of a script run on one message.
#[derive(Debug)]
pub struct Context {
    pub message: Message,
    /// The part of the message that the script looks at.
    pub part: usize,
    pub vars: Variables,
    pub runtime: Runtime,
    /// The address of the user that the script belongs to.
    pub user_address: String,
    /// The name of that user; may be empty.
    pub user_full_name: String,
    /// The time at which the script runs, in seconds from the start of 1970.
    pub current_time: i64,
    /// The actions asked for so far.
    pub actions: Vec<Action>,
    /// The messages generated so far.
    pub messages: Vec<Vec<u8>>,
    /// Whether the message was edited since its bytes were last handed out.
    pub has_changes: bool,
    /// The bytes of the message with the edits made so far.
    pub edited_message: Vec<u8>,
}

/// The value of the variable `name`: that of the first entry of that name,
/// ASCII case aside, and the empty text when there is none.
pub open spec fn lookup(named: Seq<(String, String)>, name: Seq<char>) -> Seq<char>
    decreases named.len(),
{
    if named.len() == 0 {
        Seq::empty()
    } else if eq_ignore_case(named[0].0@, name) {
        named[0].1@
    } else {
        lookup(named.drop_first(), name)
    }
}

impl Variables {
    /// The text that a piece of a string stands for; a variable or capture
    /// that is not set stands for the empty text.
    pub open spec fn fragment(self, f: Fragment) -> Seq<char> {
        match f {
            Fragment::Text(t) => t@,
            Fragment::Variable(name) => lookup(self.named@, name@),
            Fragment::Match(n) => if n < self.matched@.len() {
                self.matched@[n as int]@
            } else {
                Seq::empty()
            },
        }
    }

    /// The texts of the pieces, one after the other.
    pub open spec fn fragments(self, parts: Seq<Fragment>) -> Seq<char>
        decreases parts.len(),
    {
        if parts.len() == 0 {
            Seq::empty()
        } else {
            self.fragments(parts.drop_last()) + self.fragment(parts.last())
        }
    }

    /// The text that a string stands for.
    pub open spec fn text(self, item: StringItem) -> Seq<char> {
        match item {
            StringItem::Text(t) => t@,
            StringItem::Parts(parts) => self.fragments(parts@),
        }
    }

    /// The texts that the strings stand for.
    pub open spec fn texts(self, items: Seq<StringItem>) -> Seq<Seq<char>> {
        Seq::new(items.len(), |i: int| self.text(items[i]))
    }

    /// The text that an optional string stands for.
    pub open spec fn optional(self, item: Option<StringItem>) -> Option<Seq<char>> {
        match item {
            Some(item) => Some(self.text(item)),
            None => None,
        }
    }

    /// The value of the variable `name`.
    fn get(&self, name: &str) -> (r: &str)
        ensures
            r@ == lookup(self.named@, name@),
    {
        let mut i: usize = 0;
        assert(self.named@.skip(0) == self.named@);
        while i < self.named.len()
            invariant
                i <= self.named.len(),
                lookup(self.named@, name@) == lookup(self.named@.skip(i as int), name@),
            decreases self.named.len() - i,
        {
            assert(self.named@.skip(i as int).drop_first() == self.named@.skip(i + 1));
            if text_eq_ignore_case(self.named[i].0.as_str(), name) {
                return self.named[i].1.as_str();
            }
            i += 1;
        }
        proof {
            reveal_strlit("");
            assert(""@ =~= Seq::<char>::empty());
        }
        ""
    }

    /// Puts a string together.
    pub fn eval_string(&self, item: &StringItem) -> (r: String)
        ensures
            r@ == self.text(*item),
    {
        match item {
            StringItem::Text(t) => t.clone(),
            StringItem::Parts(parts) => {
                let mut result = String::new();
                let mut i: usize = 0;
                while i < parts.len()
                    invariant
                        i <= parts.len(),
                        result@ == self.fragments(parts@.take(i as int)),
                    decreases parts.len() - i,
                {
                    assert(parts@.take(i + 1).drop_last() == parts@.take(i as int));
                    match &parts[i] {
                        Fragment::Text(t) => {
                            result.append(t.as_str());
                        },
                        Fragment::Variable(name) => {
                            result.append(self.get(name.as_str()));
                        },
                        Fragment::Match(n) => {
                            if *n < self.matched.len() {
                                result.append(self.matched[*n].as_str());
                            } else {
                                assert(result@ + Seq::<char>::empty() =~= result@);
                            }
                        },
                    }
                    i += 1;
                }
                assert(parts@.take(parts@.len() as int) == parts@);
                result
            },
        }
    }

    /// Puts each of the strings together.
    pub fn eval_strings_owned(&self, items: &Vec<StringItem>) -> (r: Vec<String>)
        ensures
            crate::mailto::texts(r@) == self.texts(items@),
    {
        let mut result: Vec<String> = Vec::new();
        let mut i: usize = 0;
        while i < items.len()
            invariant
                i <= items.len(),
                result@.len() == i,
                forall|j: int| 0 <= j < i ==> result@[j]@ == self.text(items@[j]),
            decreases items.len() - i,
        {
            result.push(self.eval_string(&items[i]));
            i += 1;
        }
        assert(crate::mailto::texts(result@) =~= self.texts(items@));
        result
    }

    /// Puts an optional string together.
    pub fn eval_optional(&self, item: &Option<StringItem>) -> (r: Option<String>)
        ensures
            match r {
                Some(s) => self.optional(*item) == Some(s@),
                None => self.optional(*item) is None,
            },
    {
        match item {
            Some(item) => Some(self.eval_string(item)),
            None => None,
        }
    }
}

} // verus!
