//! Attribute keys and the registry that assigns one output channel to each.

use vstd::prelude::*;
use vstd::seq_lib::lemma_seq_contains_after_push;

verus! {

/// The name of the attribute under which the sizes of batches and the
/// corrections made by merges are published.
pub const SIZE_ATTRIBUTE: &'static str = "differential.event/size";

/// The name of the size attribute, as contracts speak of it.
pub open spec fn size_name() -> Seq<char> {
    SIZE_ATTRIBUTE@
}

/// An identifier for an attribute. The library tells keys apart by the
/// attribute name they stand for and by nothing else.
///
/// The contracts of the three methods are what the library relies on. For
/// `String` they are proved below; of an implementation elsewhere they hold
/// as far as that implementation is verified.
pub trait AsAid: Sized {
    /// The name of the attribute that the key stands for. An implementation
    /// that is verified says what the name is; of one that is not, no more
    /// is known than what the contracts below claim.
    open spec fn name(&self) -> Seq<char> {
        arbitrary()
    }

    /// The key that stands for the attribute called `name`.
    fn from_name(name: &'static str) -> (key: Self)
        ensures
            key.name() == name@,
    ;

    /// Whether two keys stand for the same attribute.
    fn same(&self, other: &Self) -> (equal: bool)
        ensures
            equal == (self.name() == other.name()),
    ;

    /// A second key for the same attribute.
    fn duplicate(&self) -> (key: Self)
        ensures
            key.name() == self.name(),
    ;
}

impl AsAid for String {
    open spec fn name(&self) -> Seq<char> {
        self@
    }

    fn from_name(name: &'static str) -> (key: Self) {
        name.to_owned()
    }

    fn same(&self, other: &Self) -> (equal: bool) {
        *self == *other
    }

    fn duplicate(&self) -> (key: Self) {
        self.clone()
    }
}

/// The names that a sequence of keys stands for, in order.
pub open spec fn names<A: AsAid>(keys: Seq<A>) -> Seq<Seq<char>> {
    Seq::new(keys.len(), |i: int| keys[i].name())
}

/// Tests whether no attribute occurs twice among `keys`.
pub fn keys_are_distinct<A: AsAid>(keys: &Vec<A>) -> (distinct: bool)
    ensures
        distinct == names(keys@).no_duplicates(),
{
    let mut i: usize = 0;
    while i < keys.len()
        invariant
            i <= keys@.len(),
            forall|k: int, l: int| 0 <= l < k < i ==> names(keys@)[k] != names(keys@)[l],
        decreases keys@.len() - i,
    {
        let mut j: usize = 0;
        while j < i
            invariant
                j <= i < keys@.len(),
                forall|l: int| 0 <= l < j ==> names(keys@)[i as int] != names(keys@)[l],
            decreases i - j,
        {
            if keys[i].same(&keys[j]) {
                assert(names(keys@)[i as int] == names(keys@)[j as int]);
                return false;
            }
            j += 1;
        }
        i += 1;
    }
    true
}

/// The names of `requested` in the order of their first occurrence, each once.
pub open spec fn collapsed(requested: Seq<Seq<char>>) -> Seq<Seq<char>>
    decreases requested.len(),
{
    if requested.len() == 0 {
        Seq::empty()
    } else {
        let earlier = collapsed(requested.drop_last());
        if earlier.contains(requested.last()) {
            earlier
        } else {
            earlier.push(requested.last())
        }
    }
}

/// Collapsing keeps exactly the names that were requested and keeps none twice.
pub proof fn lemma_collapsed_is_distinct(requested: Seq<Seq<char>>)
    ensures
        collapsed(requested).no_duplicates(),
        forall|name: Seq<char>| collapsed(requested).contains(name) <==> requested.contains(name),
    decreases requested.len(),
{
    if requested.len() > 0 {
        let init = requested.drop_last();
        let last = requested.last();
        lemma_collapsed_is_distinct(init);
        assert(requested =~= init.push(last));
        assert forall|name: Seq<char>| collapsed(requested).contains(name) <==> requested.contains(
            name,
        ) by {
            lemma_seq_contains_after_push(init, last, name);
            lemma_seq_contains_after_push(collapsed(init), last, name);
        }
    }
}

/// Names that are distinct to begin with are left as they are.
pub proof fn lemma_collapsed_of_distinct(requested: Seq<Seq<char>>)
    requires
        requested.no_duplicates(),
    ensures
        collapsed(requested) == requested,
    decreases requested.len(),
{
    if requested.len() > 0 {
        let init = requested.drop_last();
        let last = requested.last();
        lemma_collapsed_of_distinct(init);
        assert(requested =~= init.push(last));
        if init.contains(last) {
            let earlier = init.index_of(last);
            assert(requested[earlier] == requested[requested.len() - 1]);
        }
    }
}

/// The handle of the channel that serves the attribute called `name`, where
/// `requested` are the names in the order of the request.
pub open spec fn channel_of(requested: Seq<Seq<char>>, name: Seq<char>) -> int {
    collapsed(requested).index_of(name)
}

/// Every requested attribute has exactly one channel: its name stands at the
/// position of that channel among the collapsed names, and at no other.
pub proof fn lemma_one_channel_per_attribute(requested: Seq<Seq<char>>, name: Seq<char>)
    requires
        requested.contains(name),
    ensures
        0 <= channel_of(requested, name) < collapsed(requested).len(),
        collapsed(requested)[channel_of(requested, name)] == name,
        forall|h: int|
            0 <= h < collapsed(requested).len() && #[trigger] collapsed(requested)[h] == name ==> h
                == channel_of(requested, name),
{
    lemma_collapsed_is_distinct(requested);
    assert(collapsed(requested).contains(name));
}

/// No channel serves two attributes: requested names with the same channel
/// are the same name.
pub proof fn lemma_no_shared_channel(requested: Seq<Seq<char>>, first: Seq<char>, second: Seq<char>)
    requires
        requested.contains(first),
        requested.contains(second),
        channel_of(requested, first) == channel_of(requested, second),
    ensures
        first == second,
{
    lemma_one_channel_per_attribute(requested, first);
    lemma_one_channel_per_attribute(requested, second);
}

/// The position of an output channel among the channels of a registry.
pub type ChannelHandle = usize;

/// The attributes that were requested, each with the handle of its channel.
/// The set is fixed when the registry is made.
pub struct AttributeRegistry<A: AsAid> {
    keys: Vec<A>,
}

impl<A: AsAid> View for AttributeRegistry<A> {
    type V = Seq<Seq<char>>;

    /// The names of the registered attributes; the name at position `h` owns
    /// the channel with handle `h`.
    closed spec fn view(&self) -> Seq<Seq<char>> {
        names(self.keys@)
    }
}

impl<A: AsAid> AttributeRegistry<A> {
    /// No attribute is registered twice.
    pub open spec fn wf(&self) -> bool {
        self@.no_duplicates()
    }

    /// Registers the requested attributes in the order of the request. A key
    /// that is requested again is ignored.
    pub fn new(requested: &Vec<A>) -> (registry: Self)
        ensures
            registry.wf(),
            registry@ == collapsed(names(requested@)),
    {
        let mut registry = AttributeRegistry { keys: Vec::new() };
        let mut i: usize = 0;
        while i < requested.len()
            invariant
                i <= requested.len(),
                registry@ == collapsed(names(requested@).take(i as int)),
            decreases requested.len() - i,
        {
            assert(names(requested@).take(i + 1).drop_last() =~= names(requested@).take(i as int));
            if registry.resolve(&requested[i]).is_none() {
                registry.keys.push(requested[i].duplicate());
            }
            i += 1;
        }
        assert(names(requested@).take(requested.len() as int) =~= names(requested@));
        proof {
            lemma_collapsed_is_distinct(names(requested@));
        }
        registry
    }

    /// The number of registered attributes, which is the number of channels.
    pub fn len(&self) -> (n: usize)
        ensures
            n == self@.len(),
    {
        self.keys.len()
    }

    /// Looks up the channel of the attribute that `key` stands for. An
    /// attribute that was not requested has none.
    pub fn resolve(&self, key: &A) -> (handle: Option<ChannelHandle>)
        ensures
            match handle {
                Some(h) => {
                    &&& h < self@.len()
                    &&& self@[h as int] == key.name()
                    &&& forall|j: int| 0 <= j < h ==> self@[j] != key.name()
                },
                None => !self@.contains(key.name()),
            },
    {
        let mut i: usize = 0;
        while i < self.keys.len()
            invariant
                i <= self.keys.len(),
                forall|j: int| 0 <= j < i ==> self@[j] != key.name(),
            decreases self.keys.len() - i,
        {
            if self.keys[i].same(key) {
                return Some(i);
            }
            i += 1;
        }
        None
    }

    /// The key of the attribute that owns the channel `handle`, if there is
    /// such a channel.
    pub fn key(&self, handle: ChannelHandle) -> (key: Option<&A>)
        ensures
            match key {
                Some(key) => handle < self@.len() && key.name() == self@[handle as int],
                None => handle >= self@.len(),
            },
    {
        if handle < self.keys.len() {
            Some(&self.keys[handle])
        } else {
            None
        }
    }

    /// Lists every registered attribute with the handle of its channel, in
    /// the order of the handles.
    pub fn channels(&self) -> (list: Vec<(A, ChannelHandle)>)
        ensures
            list.len() == self@.len(),
            forall|h: int|
                0 <= h < list.len() ==> (#[trigger] list[h]).0.name() == self@[h] && list[h].1 == h,
    {
        let mut list: Vec<(A, ChannelHandle)> = Vec::new();
        let mut i: usize = 0;
        while i < self.keys.len()
            invariant
                i <= self.keys.len(),
                list.len() == i,
                forall|h: int|
                    0 <= h < i ==> (#[trigger] list[h]).0.name() == self@[h] && list[h].1 == h,
            decreases self.keys.len() - i,
        {
            list.push((self.keys[i].duplicate(), i));
            i += 1;
        }
        list
    }
}

} // verus!
