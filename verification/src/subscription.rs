//! The subscription set: the ordered, duplicate-free list of channel names a
//! consumer wants, the membership filter over it, and the batched
//! registration command it gives rise to.

use vstd::prelude::*;
use vstd::string::StringExecFns;

verus! {

/// Keeps the first occurrence of each name, in order; later duplicates are
/// dropped.
pub open spec fn dedup_first(s: Seq<Seq<char>>) -> Seq<Seq<char>>
    decreases s.len(),
{
    if s.len() == 0 {
        Seq::<Seq<char>>::empty()
    } else if s.drop_last().contains(s.last()) {
        dedup_first(s.drop_last())
    } else {
        dedup_first(s.drop_last()).push(s.last())
    }
}

/// Whether a notification on `channel` passes the subscription filter: an
/// empty set means "no filtering, deliver all".
pub open spec fn passes_filter(channels: Seq<Seq<char>>, channel: Seq<char>) -> bool {
    channels.len() == 0 || channels.contains(channel)
}

/// The batched registration command for a list of channels:
/// `LISTEN <name>;` concatenated per channel, in order.
pub open spec fn listen_command_of(channels: Seq<Seq<char>>) -> Seq<char>
    decreases channels.len(),
{
    if channels.len() == 0 {
        Seq::<char>::empty()
    } else {
        listen_command_of(channels.drop_last()) + "LISTEN "@ + channels.last() + ";"@
    }
}

/// The set of channel names a consumer subscribes to. Ordered and
/// duplicate-free; empty means "deliver every notification".
///
/// Channel names are embedded verbatim into the registration command: no
/// sanitization is performed, which is a documented caller responsibility.
pub struct SubscriptionSet {
    channels: Vec<String>,
}

impl View for SubscriptionSet {
    type V = Seq<Seq<char>>;

    closed spec fn view(&self) -> Seq<Seq<char>> {
        self.channels.deep_view()
    }
}

fn vec_contains(v: &Vec<String>, name: &String) -> (b: bool)
    ensures
        b == v.deep_view().contains(name@),
{
    let mut i: usize = 0;
    while i < v.len()
        invariant
            i <= v.len(),
            forall|j: int| 0 <= j < i ==> v.deep_view()[j] != name@,
        decreases v.len() - i,
    {
        if v[i].eq(name) {
            assert(v.deep_view()[i as int] == name@);
            return true;
        }
        i += 1;
    }
    assert(forall|j: int| 0 <= j < v.deep_view().len() ==> v.deep_view()[j] != name@);
    false
}

impl SubscriptionSet {
    /// Builds the set from caller-supplied names, keeping the first
    /// occurrence of each name and dropping later duplicates.
    pub fn from_names(names: Vec<String>) -> (s: SubscriptionSet)
        ensures
            s@ == dedup_first(names.deep_view()),
    {
        let mut channels: Vec<String> = Vec::new();
        let mut i: usize = 0;
        while i < names.len()
            invariant
                i <= names.len(),
                channels.deep_view() == dedup_first(names.deep_view().take(i as int)),
            decreases names.len() - i,
        {
            let ghost prefix = names.deep_view().take(i as int);
            let ghost next_prefix = names.deep_view().take(i as int + 1);
            proof {
                assert(next_prefix.drop_last() =~= prefix);
                assert(next_prefix.last() == names.deep_view()[i as int]);
            }
            let name = names[i].clone();
            if vec_contains(&channels, &name) {
                proof {
                    lemma_dedup_first_same_members(prefix);
                }
            } else {
                proof {
                    lemma_dedup_first_same_members(prefix);
                }
                channels.push(name);
                proof {
                    assert(channels.deep_view() =~= dedup_first(prefix).push(names.deep_view()[i as int]));
                }
            }
            i += 1;
        }
        proof {
            assert(names.deep_view().take(names.len() as int) =~= names.deep_view());
        }
        SubscriptionSet { channels }
    }

    /// The number of subscribed channels.
    pub fn len(&self) -> (n: usize)
        ensures
            n == self@.len(),
    {
        self.channels.len()
    }

    /// The subscribed channel names, in order.
    pub fn names(&self) -> (r: &Vec<String>)
        ensures
            r.deep_view() == self@,
    {
        &self.channels
    }

    /// Whether `name` is a member of the set.
    pub fn contains_name(&self, name: &String) -> (b: bool)
        ensures
            b == self@.contains(name@),
    {
        vec_contains(&self.channels, name)
    }

    /// Whether a notification on `channel` passes this set's filter: true
    /// when the set is empty or when `channel` is a member.
    pub fn passes(&self, channel: &String) -> (b: bool)
        ensures
            b == passes_filter(self@, channel@),
    {
        if self.channels.len() == 0 {
            true
        } else {
            vec_contains(&self.channels, channel)
        }
    }

    /// Builds the batched registration command, `LISTEN <name>;` per channel,
    /// in subscription order. Names are embedded verbatim.
    pub fn build_listen_command(&self) -> (cmd: String)
        ensures
            cmd@ == listen_command_of(self@),
    {
        let mut cmd = String::new();
        let mut i: usize = 0;
        while i < self.channels.len()
            invariant
                i <= self.channels.len(),
                self@.len() == self.channels.len(),
                cmd@ == listen_command_of(self@.take(i as int)),
            decreases self.channels.len() - i,
        {
            cmd.append("LISTEN ");
            cmd.append(self.channels[i].as_str());
            cmd.append(";");
            proof {
                assert(self@.take(i as int + 1).drop_last() =~= self@.take(i as int));
                assert(self@.take(i as int + 1).last() == self@[i as int]);
            }
            i += 1;
        }
        proof {
            assert(self@.take(self.channels.len() as int) =~= self@);
        }
        cmd
    }
}

/// Dropping duplicates changes no memberships: a name is in the deduplicated
/// set exactly when it was among the supplied names.
pub proof fn lemma_dedup_first_same_members(s: Seq<Seq<char>>)
    ensures
        forall|c: Seq<char>| dedup_first(s).contains(c) <==> s.contains(c),
    decreases s.len(),
{
    if s.len() == 0 {
    } else {
        lemma_dedup_first_same_members(s.drop_last());
        assert forall|c: Seq<char>| s.contains(c) implies dedup_first(s).contains(c) by {
            let i = choose|i: int| 0 <= i < s.len() && s[i] == c;
            if i < s.len() - 1 {
                assert(s.drop_last()[i] == c);
                assert(s.drop_last().contains(c));
                if s.drop_last().contains(s.last()) {
                } else {
                    let j = choose|j: int| 0 <= j < dedup_first(s.drop_last()).len()
                        && dedup_first(s.drop_last())[j] == c;
                    assert(dedup_first(s)[j] == c);
                }
            } else {
                if s.drop_last().contains(s.last()) {
                } else {
                    assert(dedup_first(s).last() == c);
                }
            }
        }
        assert forall|c: Seq<char>| dedup_first(s).contains(c) implies s.contains(c) by {
            if s.drop_last().contains(s.last()) {
                assert(dedup_first(s.drop_last()).contains(c));
                assert(s.drop_last().contains(c));
                let k = choose|k: int| 0 <= k < s.drop_last().len() && s.drop_last()[k] == c;
                assert(s[k] == c);
            } else {
                let j = choose|j: int| 0 <= j < dedup_first(s).len() && dedup_first(s)[j] == c;
                if j < dedup_first(s).len() - 1 {
                    assert(dedup_first(s.drop_last())[j] == c);
                    assert(dedup_first(s.drop_last()).contains(c));
                    assert(s.drop_last().contains(c));
                    let k = choose|k: int| 0 <= k < s.drop_last().len() && s.drop_last()[k] == c;
                    assert(s[k] == c);
                } else {
                    assert(s.last() == c);
                }
            }
        }
    }
}

/// The deduplicated set holds no name twice.
pub proof fn lemma_dedup_first_unique(s: Seq<Seq<char>>)
    ensures
        forall|i: int, j: int|
            0 <= i < j < dedup_first(s).len() ==> dedup_first(s)[i] != dedup_first(s)[j],
    decreases s.len(),
{
    if s.len() == 0 {
    } else {
        lemma_dedup_first_unique(s.drop_last());
        lemma_dedup_first_same_members(s.drop_last());
        if s.drop_last().contains(s.last()) {
        } else {
            assert forall|i: int, j: int|
                0 <= i < j < dedup_first(s).len() implies dedup_first(s)[i] != dedup_first(s)[j] by {
                if j < dedup_first(s).len() - 1 {
                    assert(dedup_first(s)[i] == dedup_first(s.drop_last())[i]);
                    assert(dedup_first(s)[j] == dedup_first(s.drop_last())[j]);
                } else {
                    assert(dedup_first(s)[j] == s.last());
                    assert(dedup_first(s.drop_last()).contains(dedup_first(s.drop_last())[i]));
                }
            }
        }
    }
}

/// Deduplicating the subscription set does not change which notifications
/// pass the filter.
pub proof fn lemma_dedup_first_filter_equivalent(s: Seq<Seq<char>>, channel: Seq<char>)
    ensures
        passes_filter(dedup_first(s), channel) == passes_filter(s, channel),
{
    lemma_dedup_first_same_members(s);
    if s.len() == 0 {
    } else {
        assert(s.contains(s[0]));
        assert(dedup_first(s).contains(s[0]));
        assert(dedup_first(s).len() > 0);
    }
}

} // verus!
