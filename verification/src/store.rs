//! The shared state of the server: the rooms that are known, the users that
//! are active, and what has been said in each room.
//!
//! Each of the three is a value of its own, so that the program can guard
//! each with a lock of its own. A change needs exclusive access, a snapshot
//! only shared access.
//!
//! The histories are kept as a list in the order in which they were opened:
//! a message goes to the first history whose name matches its room, so the
//! order decides where more than one matches. A request for a history goes
//! by the exact name.

use crate::message::{views_of, welcome_to, Message, MessageView};
use crate::registry::{
    copy_names, find_match, first_match, first_match_is, first_match_is_first_place, first_place,
    first_place_is, is_first_match, is_first_place, knows, known_has_first_match, renamed,
    unknown_is_absent, unrelated, with_name, with_name_keeps_unrelated,
};
use crate::text::{chars_of, contains, related, related_to_itself, texts_of};
use vstd::prelude::*;

verus! {

/// The rooms that are known, in the order in which they were first named.
pub struct Rooms {
    rooms: Vec<String>,
}

/// The users that are active, in the order in which they are shown.
pub struct Users {
    users: Vec<String>,
}

/// What has been said in one room.
pub struct RoomHistory {
    room: String,
    entries: Vec<Message>,
}

/// What has been said in each room, in the order in which the rooms were
/// first written to.
pub struct SavedMessages {
    histories: Vec<RoomHistory>,
}

/// The history of one room: the name under which it is kept and its
/// messages, oldest first.
pub ghost struct HistoryView {
    pub room: Seq<char>,
    pub entries: Seq<MessageView>,
}

/// The names under which the histories are kept.
pub open spec fn keys_of(histories: Seq<HistoryView>) -> Seq<Seq<char>> {
    Seq::new(histories.len(), |i: int| histories[i].room)
}

/// The histories after `m` has been added for `room`. Where a history is
/// kept under a name that matches `room`, the first such history gets the
/// message at its end. Where none is, a new history is opened under `room`,
/// with the welcome to the room before the message.
pub open spec fn with_message(histories: Seq<HistoryView>, room: Seq<char>, m: MessageView) -> Seq<
    HistoryView,
> {
    if knows(keys_of(histories), room) {
        let i = first_match(keys_of(histories), room);
        histories.update(
            i,
            HistoryView { room: histories[i].room, entries: histories[i].entries.push(m) },
        )
    } else {
        histories.push(HistoryView { room, entries: seq![welcome_to(room), m] })
    }
}

/// The messages of the history that is kept under exactly the name `room`,
/// if there is one. A name that only matches `room` does not count. Where
/// histories are free of keys that match one another, at most one is kept
/// under `room`; in any case the first one is meant.
pub open spec fn history_of(histories: Seq<HistoryView>, room: Seq<char>) -> Option<
    Seq<MessageView>,
> {
    if keys_of(histories).contains(room) {
        Some(histories[first_place(keys_of(histories), room)].entries)
    } else {
        None
    }
}

/// The name under which a message for `room` is kept: the first key that
/// matches `room`, or `room` itself where none does.
pub open spec fn saved_under(histories: Seq<HistoryView>, room: Seq<char>) -> Seq<char> {
    if knows(keys_of(histories), room) {
        keys_of(histories)[first_match(keys_of(histories), room)]
    } else {
        room
    }
}

/// The histories after the messages `ms` have been added for `room`, one
/// after the other.
pub open spec fn with_messages(histories: Seq<HistoryView>, room: Seq<char>, ms: Seq<MessageView>) -> Seq<
    HistoryView,
>
    decreases ms.len(),
{
    if ms.len() == 0 {
        histories
    } else {
        with_message(with_messages(histories, room, ms.drop_last()), room, ms.last())
    }
}

impl View for Rooms {
    type V = Seq<Seq<char>>;

    closed spec fn view(&self) -> Seq<Seq<char>> {
        texts_of(self.rooms@)
    }
}

impl View for Users {
    type V = Seq<Seq<char>>;

    closed spec fn view(&self) -> Seq<Seq<char>> {
        texts_of(self.users@)
    }
}

impl View for RoomHistory {
    type V = HistoryView;

    closed spec fn view(&self) -> HistoryView {
        HistoryView { room: self.room@, entries: views_of(self.entries@) }
    }
}

impl View for SavedMessages {
    type V = Seq<HistoryView>;

    closed spec fn view(&self) -> Seq<HistoryView> {
        Seq::new(self.histories@.len(), |i: int| self.histories@[i]@)
    }
}

/// Adding a message changes no key that was there, and the only key that it
/// can add is the room itself.
pub proof fn with_message_keys(histories: Seq<HistoryView>, room: Seq<char>, m: MessageView)
    ensures
        keys_of(with_message(histories, room, m)) == with_name(keys_of(histories), room),
{
    let keys = keys_of(histories);
    let after = with_message(histories, room, m);
    if knows(keys, room) {
        known_has_first_match(keys, room);
        assert(keys_of(after) =~= keys);
    } else {
        assert(keys_of(after) =~= keys.push(room));
    }
}

/// Adding a message keeps the histories free of keys that match one another.
pub proof fn with_message_keeps_unrelated(histories: Seq<HistoryView>, room: Seq<char>, m: MessageView)
    requires
        unrelated(keys_of(histories)),
    ensures
        unrelated(keys_of(with_message(histories, room, m))),
{
    with_message_keys(histories, room, m);
    with_name_keeps_unrelated(keys_of(histories), room);
}

/// After a message has been added for a room, the history under the name
/// where it is kept is what it was with the message at its end; where there
/// was none, it is the welcome followed by the message. The history under
/// every other name is as it was.
pub proof fn history_after_message(histories: Seq<HistoryView>, room: Seq<char>, m: MessageView)
    ensures
        history_of(with_message(histories, room, m), saved_under(histories, room)) == Some(
            match history_of(histories, saved_under(histories, room)) {
                Some(entries) => entries.push(m),
                None => seq![welcome_to(room), m],
            },
        ),
        forall|other: Seq<char>|
            other != saved_under(histories, room) ==> #[trigger] history_of(
                with_message(histories, room, m),
                other,
            ) == history_of(histories, other),
{
    let keys = keys_of(histories);
    let after = with_message(histories, room, m);
    let key = saved_under(histories, room);
    with_message_keys(histories, room, m);
    if knows(keys, room) {
        let i = first_match(keys, room);
        first_match_is_first_place(keys, room);
        first_place_is(keys, key, i);
        assert(keys_of(after) == keys);
        assert forall|other: Seq<char>| other != key implies #[trigger] history_of(after, other)
            == history_of(histories, other) by {
            if keys.contains(other) {
                let j = choose|j: int| 0 <= j < keys.len() && keys[j] == other;
                place_below(keys, other, j);
                let k = first_place(keys, other);
                assert(keys[k] == other);
                assert(k != i);
            }
        }
    } else {
        let n = histories.len() as int;
        unknown_is_absent(keys, room);
        assert(keys_of(after) == keys.push(room));
        assert forall|j: int| 0 <= j < n implies #[trigger] keys_of(after)[j] != room by {
            assert(keys[j] == keys_of(after)[j]);
        }
        first_place_is(keys_of(after), room, n);
        assert forall|other: Seq<char>| other != key implies #[trigger] history_of(after, other)
            == history_of(histories, other) by {
            if keys.contains(other) {
                let j = choose|j: int| 0 <= j < keys.len() && keys[j] == other;
                place_below(keys, other, j);
                let k = first_place(keys, other);
                assert(keys_of(after)[k] == other);
                assert forall|l: int| 0 <= l < k implies #[trigger] keys_of(after)[l] != other by {
                    assert(keys[l] == keys_of(after)[l]);
                }
                first_place_is(keys_of(after), other, k);
            } else if keys_of(after).contains(other) {
                let j = choose|j: int| 0 <= j < keys_of(after).len() && keys_of(after)[j] == other;
                if j < n {
                    assert(keys[j] == other);
                }
            }
        }
    }
}

/// A name that stands in a list has a first place there.
proof fn place_below(names: Seq<Seq<char>>, name: Seq<char>, i: int)
    requires
        0 <= i < names.len(),
        names[i] == name,
    ensures
        is_first_place(names, name, first_place(names, name)),
    decreases i,
{
    if forall|j: int| 0 <= j < i ==> #[trigger] names[j] != name {
        assert(is_first_place(names, name, i));
    } else {
        let j = choose|j: int| 0 <= j < i && #[trigger] names[j] == name;
        place_below(names, name, j);
    }
}

/// Where messages for a room are kept under the room's own name, they still
/// are after one more.
pub proof fn saved_under_own_name_stays(histories: Seq<HistoryView>, room: Seq<char>, m: MessageView)
    requires
        saved_under(histories, room) == room,
    ensures
        saved_under(with_message(histories, room, m), room) == room,
{
    let keys = keys_of(histories);
    let after = with_message(histories, room, m);
    with_message_keys(histories, room, m);
    if knows(keys, room) {
        assert(keys_of(after) == keys);
    } else {
        let n = histories.len() as int;
        related_to_itself(room);
        assert(keys_of(after) == keys.push(room));
        assert(keys_of(after)[n] == room);
        assert forall|j: int| 0 <= j < n implies !related(#[trigger] keys_of(after)[j], room) by {
            assert(keys_of(after)[j] == keys[j]);
        }
        first_match_is(keys_of(after), room, n);
    }
}

/// A room under whose name nothing is kept has no history. Where no key
/// matches the room, its history after one message holds two entries, the
/// welcome and then the message.
pub proof fn first_message_opens_history(histories: Seq<HistoryView>, room: Seq<char>, m: MessageView)
    requires
        !knows(keys_of(histories), room),
    ensures
        history_of(histories, room) is None,
        history_of(with_message(histories, room, m), room) == Some(seq![welcome_to(room), m]),
{
    unknown_is_absent(keys_of(histories), room);
    history_after_message(histories, room, m);
}

/// However many messages are added for one room, in whatever order they
/// arrive, none is lost and none is doubled: the history of the room grows by
/// exactly these messages in the order in which they were added, after the
/// welcome where the room had no history before. This holds where messages
/// for the room are kept under the room's own name: where no key matches it,
/// or the first key that matches it is the room itself.
pub proof fn history_after_messages(histories: Seq<HistoryView>, room: Seq<char>, ms: Seq<MessageView>)
    requires
        ms.len() >= 1,
        saved_under(histories, room) == room,
    ensures
        saved_under(with_messages(histories, room, ms), room) == room,
        history_of(with_messages(histories, room, ms), room) == Some(
            match history_of(histories, room) {
                Some(entries) => entries + ms,
                None => seq![welcome_to(room)] + ms,
            },
        ),
        history_of(histories, room) is None ==> history_of(
            with_messages(histories, room, ms),
            room,
        )->0.len() == ms.len() + 1,
    decreases ms.len(),
{
    let before = with_messages(histories, room, ms.drop_last());
    if ms.len() == 1 {
        assert(ms.drop_last().len() == 0);
        assert(before == histories);
        history_after_message(before, room, ms.last());
        saved_under_own_name_stays(before, room, ms.last());
        match history_of(histories, room) {
            Some(entries) => {
                assert(entries.push(ms.last()) =~= entries + ms);
            },
            None => {
                assert(seq![welcome_to(room), ms.last()] =~= seq![welcome_to(room)] + ms);
            },
        }
    } else {
        history_after_messages(histories, room, ms.drop_last());
        history_after_message(before, room, ms.last());
        saved_under_own_name_stays(before, room, ms.last());
        match history_of(histories, room) {
            Some(entries) => {
                assert((entries + ms.drop_last()).push(ms.last()) =~= entries + ms);
            },
            None => {
                assert((seq![welcome_to(room)] + ms.drop_last()).push(ms.last()) =~= seq![
                    welcome_to(room),
                ] + ms);
            },
        }
    }
}

/// A change of name from a name to itself leaves the list as it was.
pub proof fn rename_to_same_name(names: Seq<Seq<char>>, name: Seq<char>)
    ensures
        renamed(names, name, name) == names,
{
}

/// A change of name takes out exactly one entry, the old name, and puts the
/// new name at the end, where the old name stands in the list and no entry
/// before it matches it.
pub proof fn rename_moves_one_entry(
    names: Seq<Seq<char>>,
    old_name: Seq<char>,
    new_name: Seq<char>,
    i: int,
)
    requires
        old_name != new_name,
        0 <= i < names.len(),
        names[i] == old_name,
        forall|j: int| 0 <= j < i ==> !related(#[trigger] names[j], old_name),
    ensures
        renamed(names, old_name, new_name) == names.remove(i).push(new_name),
        renamed(names, old_name, new_name).len() == names.len(),
{
    related_to_itself(old_name);
    first_match_is(names, old_name, i);
}

/// A change of name to a name that no other entry matches keeps a list free
/// of entries that match one another.
pub proof fn rename_keeps_unrelated(names: Seq<Seq<char>>, old_name: Seq<char>, new_name: Seq<char>)
    requires
        unrelated(names),
        forall|j: int|
            0 <= j < names.len() && related(#[trigger] names[j], new_name) ==> old_name != new_name
                && is_first_match(names, old_name, j),
    ensures
        unrelated(renamed(names, old_name, new_name)),
{
    if old_name != new_name {
        let after = renamed(names, old_name, new_name);
        if knows(names, old_name) {
            known_has_first_match(names, old_name);
            let k = first_match(names, old_name);
            let rest = names.remove(k);
            assert forall|i: int, j: int|
                0 <= i < after.len() && 0 <= j < after.len() && i != j implies !related(
                #[trigger] after[i],
                #[trigger] after[j],
            ) by {
                let a = if i < k { i } else { i + 1 };
                let b = if j < k { j } else { j + 1 };
                if i < rest.len() && j < rest.len() {
                    assert(after[i] == names[a] && after[j] == names[b]);
                } else if i < rest.len() {
                    assert(after[i] == names[a]);
                    if related(names[a], new_name) {
                        first_match_is(names, old_name, a);
                    }
                } else {
                    assert(after[j] == names[b]);
                    if related(names[b], new_name) {
                        first_match_is(names, old_name, b);
                    }
                }
            }
        } else {
            assert forall|i: int, j: int|
                0 <= i < after.len() && 0 <= j < after.len() && i != j implies !related(
                #[trigger] after[i],
                #[trigger] after[j],
            ) by {
                if i < names.len() && j < names.len() {
                    assert(after[i] == names[i] && after[j] == names[j]);
                } else if i < names.len() {
                    assert(after[i] == names[i]);
                } else {
                    assert(after[j] == names[j]);
                }
            }
        }
    }
}

impl Rooms {
    /// The rooms at the start: the lobby alone.
    pub fn new() -> (rooms: Rooms)
        ensures
            rooms@ == seq!["lobby"@],
            unrelated(rooms@),
    {
        let mut rooms: Vec<String> = Vec::new();
        rooms.push(String::from_str("lobby"));
        assert(texts_of(rooms@) =~= seq!["lobby"@]);
        Rooms { rooms }
    }

    /// Makes the room `name` known. Nothing changes where an entry matches
    /// the name already; else the name is added at the end.
    pub fn ensure_room(&mut self, name: &str)
        ensures
            final(self)@ == with_name(old(self)@, name@),
            unrelated(old(self)@) ==> unrelated(final(self)@),
    {
        proof {
            if unrelated(self@) {
                with_name_keeps_unrelated(self@, name@);
            }
        }
        if find_match(&self.rooms, name).is_none() {
            let ghost before = self.rooms@;
            self.rooms.push(String::from_str(name));
            assert(texts_of(self.rooms@) =~= texts_of(before).push(name@));
        }
    }

    /// The names of the rooms, in order.
    pub fn snapshot_rooms(&self) -> (names: Vec<String>)
        ensures
            texts_of(names@) == self@,
    {
        copy_names(&self.rooms)
    }
}

impl Users {
    /// The users at the start: none.
    pub fn new() -> (users: Users)
        ensures
            users@ == Seq::<Seq<char>>::empty(),
    {
        let users: Vec<String> = Vec::new();
        assert(texts_of(users@) =~= Seq::<Seq<char>>::empty());
        Users { users }
    }

    /// Records that a user goes from the name `old_name` to `new_name`.
    /// Nothing changes where the two are equal. Else the first entry that
    /// matches `old_name` leaves the list, if there is one, and `new_name` is
    /// added at the end.
    pub fn rename_user(&mut self, old_name: &String, new_name: String)
        ensures
            final(self)@ == renamed(old(self)@, old_name@, new_name@),
    {
        if *old_name == new_name {
            return ;
        }
        let ghost before = self.users@;
        match find_match(&self.users, old_name.as_str()) {
            Some(i) => {
                proof {
                    first_match_is(texts_of(before), old_name@, i as int);
                }
                self.users.remove(i);
                assert(texts_of(self.users@) =~= texts_of(before).remove(i as int));
            },
            None => {},
        }
        let ghost middle = self.users@;
        self.users.push(new_name);
        assert(texts_of(self.users@) =~= texts_of(middle).push(new_name@));
    }

    /// The names of the users, in order.
    pub fn snapshot_users(&self) -> (names: Vec<String>)
        ensures
            texts_of(names@) == self@,
    {
        copy_names(&self.users)
    }
}

/// A copy of `messages`.
fn copy_messages(messages: &Vec<Message>) -> (copy: Vec<Message>)
    ensures
        views_of(copy@) == views_of(messages@),
{
    let mut copy: Vec<Message> = Vec::new();
    let mut i: usize = 0;
    while i < messages.len()
        invariant
            i <= messages.len(),
            copy.len() == i,
            forall|j: int| 0 <= j < i ==> copy@[j]@ == messages@[j]@,
        decreases messages.len() - i,
    {
        copy.push(messages[i].clone());
        i += 1;
    }
    assert(views_of(copy@) =~= views_of(messages@));
    copy
}

impl SavedMessages {
    /// The histories at the start: none.
    pub fn new() -> (saved: SavedMessages)
        ensures
            saved@ == Seq::<HistoryView>::empty(),
            unrelated(keys_of(saved@)),
    {
        let saved = SavedMessages { histories: Vec::new() };
        assert(saved@ =~= Seq::<HistoryView>::empty());
        saved
    }

    /// The place of the first history that is kept under a name that matches
    /// `room`, if there is one.
    fn find_history(&self, room: &str) -> (place: Option<usize>)
        ensures
            match place {
                Some(i) => is_first_match(keys_of(self@), room@, i as int),
                None => !knows(keys_of(self@), room@),
            },
    {
        let target = chars_of(room);
        let mut i: usize = 0;
        while i < self.histories.len()
            invariant
                i <= self.histories.len(),
                target@ == room@,
                forall|j: int| 0 <= j < i ==> !related(#[trigger] keys_of(self@)[j], room@),
            decreases self.histories.len() - i,
        {
            let key = chars_of(self.histories[i].room.as_str());
            assert(key@ == keys_of(self@)[i as int]);
            if contains(&target, &key) || contains(&key, &target) {
                return Some(i);
            }
            i += 1;
        }
        None
    }

    /// Adds `message` to what has been said in `room`. The first history
    /// that is kept under a name that matches `room` gets it at its end;
    /// where there is none, one is opened under `room` with the welcome to
    /// the room before the message.
    pub fn append_history(&mut self, room: &str, message: Message)
        ensures
            final(self)@ == with_message(old(self)@, room@, message@),
            unrelated(keys_of(old(self)@)) ==> unrelated(keys_of(final(self)@)),
    {
        proof {
            if unrelated(keys_of(self@)) {
                with_message_keeps_unrelated(self@, room@, message@);
            }
        }
        let ghost before = self@;
        match self.find_history(room) {
            Some(i) => {
                proof {
                    first_match_is(keys_of(before), room@, i as int);
                }
                let mut history = self.histories.remove(i);
                let ghost entries = history.entries@;
                history.entries.push(message);
                assert(views_of(history.entries@) =~= views_of(entries).push(message@));
                self.histories.insert(i, history);
                assert(self@ =~= with_message(before, room@, message@));
            },
            None => {
                let mut entries: Vec<Message> = Vec::new();
                entries.push(Message::welcome(room));
                entries.push(message);
                assert(views_of(entries@) =~= seq![welcome_to(room@), message@]);
                self.histories.push(RoomHistory { room: String::from_str(room), entries });
                assert(self@ =~= with_message(before, room@, message@));
            },
        }
    }

    /// The place of the first history that is kept under exactly the name
    /// `room`, if there is one.
    fn find_key(&self, room: &str) -> (place: Option<usize>)
        ensures
            match place {
                Some(i) => is_first_place(keys_of(self@), room@, i as int),
                None => !keys_of(self@).contains(room@),
            },
    {
        let target = String::from_str(room);
        let mut i: usize = 0;
        while i < self.histories.len()
            invariant
                i <= self.histories.len(),
                target@ == room@,
                forall|j: int| 0 <= j < i ==> #[trigger] keys_of(self@)[j] != room@,
            decreases self.histories.len() - i,
        {
            assert(self.histories[i as int].room@ == keys_of(self@)[i as int]);
            if self.histories[i].room == target {
                return Some(i);
            }
            i += 1;
        }
        None
    }

    /// What has been said in `room`, oldest first: the messages of the
    /// history that is kept under exactly the name `room`. Where there is
    /// none, also where a name that matches `room` has one, nothing is found.
    pub fn snapshot_history(&self, room: &str) -> (entries: Option<Vec<Message>>)
        ensures
            entries is Some <==> keys_of(self@).contains(room@),
            match entries {
                Some(found) => history_of(self@, room@) == Some(views_of(found@)),
                None => history_of(self@, room@) is None,
            },
    {
        match self.find_key(room) {
            Some(i) => {
                proof {
                    first_place_is(keys_of(self@), room@, i as int);
                }
                Some(copy_messages(&self.histories[i].entries))
            },
            None => None,
        }
    }
}

} // verus!
