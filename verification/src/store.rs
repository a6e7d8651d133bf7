//! An in-memory model of the system's credential store.
//!
//! The authoritative account database lives outside this crate; the
//! embedding process reads it and hands the daemon a
//! [`CredentialStore`]: plain records carrying exactly what the
//! protocol logic reads.  A user record binds a numeric id and a login
//! name to a credential; a group record lists its members by name.
//!
//! A credential is either locked (it matches no submission at all) or
//! set to a secret, compared byte for byte.  An empty secret is the
//! "blank password" state of the account database.  Blank credentials
//! get no special bypass anywhere in this crate: every elevation
//! request goes through the daemon handshake, and a blank credential
//! authenticates only the empty submission.

use vstd::prelude::*;
use crate::bytes::bytes_eq;

verus! {

/// The credential bound to a user record.
#[derive(Debug, Clone, PartialEq, Eq)]
pub enum Credential {
    /// The account is locked: no submission authenticates.
    Locked,
    /// The account's secret; an empty secret is a blank password.
    Secret(Vec<u8>),
}

impl Credential {
    /// Whether `candidate` authenticates against this credential.
    pub open spec fn spec_matches(self, candidate: Seq<u8>) -> bool {
        match self {
            Credential::Locked => false,
            Credential::Secret(s) => s@ == candidate,
        }
    }

    /// Whether the credential is a blank password.
    pub open spec fn spec_is_blank(self) -> bool {
        self matches Credential::Secret(s) && s@ == Seq::<u8>::empty()
    }

    /// Check a candidate secret against this credential.
    pub fn matches(&self, candidate: &[u8]) -> (r: bool)
        ensures
            r == self.spec_matches(candidate@),
    {
        match self {
            Credential::Locked => false,
            Credential::Secret(s) => bytes_eq(s.as_slice(), candidate),
        }
    }

    /// Whether the credential is a blank password.
    pub fn is_blank(&self) -> (r: bool)
        ensures
            r == self.spec_is_blank(),
    {
        match self {
            Credential::Locked => false,
            Credential::Secret(s) => {
                let r = s.len() == 0;
                proof {
                    if s@.len() == 0 {
                        assert(s@ =~= Seq::<u8>::empty());
                    }
                }
                r
            },
        }
    }
}

/// One user of the system.
#[derive(Debug, Clone, PartialEq, Eq)]
pub struct UserRecord {
    /// Numeric user id.
    pub uid: u32,
    /// Login name, as raw bytes.
    pub name: Vec<u8>,
    /// The user's credential.
    pub credential: Credential,
}

/// One group of the system.
#[derive(Debug, Clone, PartialEq, Eq)]
pub struct GroupRecord {
    /// Numeric group id.
    pub gid: u32,
    /// Group name, as raw bytes.
    pub name: Vec<u8>,
    /// Login names of the members.
    pub members: Vec<Vec<u8>>,
}

/// Mathematical model of a group record: every name as a sequence.
#[verifier::ext_equal]
pub struct GroupModel {
    pub gid: u32,
    pub name: Seq<u8>,
    pub members: Seq<Seq<u8>>,
}

impl GroupModel {
    /// Whether `login` appears among the members.
    pub open spec fn has_member(self, login: Seq<u8>) -> bool {
        exists|i: int| 0 <= i < self.members.len() && self.members[i] == login
    }

    /// Index of the first member equal to `login`.
    pub open spec fn member_index(self, login: Seq<u8>) -> int {
        choose|i: int|
            0 <= i < self.members.len() && self.members[i] == login && forall|j: int|
                0 <= j < i ==> self.members[j] != login
    }
}

impl GroupRecord {
    /// The record as its model.
    pub open spec fn model(self) -> GroupModel {
        GroupModel {
            gid: self.gid,
            name: self.name@,
            members: Seq::new(self.members@.len(), |i: int| self.members@[i]@),
        }
    }

    /// Whether `login` appears among the members.
    pub open spec fn spec_has_member(self, login: Seq<u8>) -> bool {
        exists|i: int| 0 <= i < self.members@.len() && self.members@[i]@ == login
    }

    /// Position of the first member equal to `login`.
    pub fn member_position(&self, login: &[u8]) -> (r: Option<usize>)
        ensures
            match r {
                Some(k) => {
                    &&& self.model().has_member(login@)
                    &&& k == self.model().member_index(login@)
                    &&& k < self.members@.len()
                },
                None => !self.model().has_member(login@),
            },
    {
        let n = self.members.len();
        let mut i: usize = 0;
        while i < n
            invariant
                n == self.members@.len(),
                i <= n,
                forall|j: int| 0 <= j < i ==> self.members@[j]@ != login@,
            decreases n - i,
        {
            if bytes_eq(self.members[i].as_slice(), login) {
                proof {
                    let m = self.model();
                    let w = i as int;
                    assert(m.members[w] == login@);
                    assert(forall|j: int| 0 <= j < w ==> m.members[j] != login@);
                    let c = m.member_index(login@);
                    if c != w {
                        if c < w {
                            assert(m.members[c] != login@);
                        } else {
                            assert(m.members[w] != login@);
                        }
                    }
                }
                return Some(i);
            }
            i += 1;
        }
        proof {
            assert(forall|j: int|
                0 <= j < self.model().members.len() ==> self.model().members[j] != login@);
        }
        None
    }

    /// Whether `login` appears among the members.
    pub fn has_member(&self, login: &[u8]) -> (r: bool)
        ensures
            r == self.spec_has_member(login@),
    {
        let n = self.members.len();
        let mut i: usize = 0;
        while i < n
            invariant
                n == self.members@.len(),
                i <= n,
                forall|j: int| 0 <= j < i ==> self.members@[j]@ != login@,
            decreases n - i,
        {
            if bytes_eq(self.members[i].as_slice(), login) {
                return true;
            }
            i += 1;
        }
        false
    }
}

/// The error the record-store mutations report.
///
/// A group name with no record is reported as a missing *user*; that
/// is what this store's callers have always been told, so it is kept.
#[derive(Debug, Clone, Copy, PartialEq, Eq, Structural)]
pub enum StoreError {
    UserNotFound,
}

/// Sequence of group models of a sequence of names.
pub open spec fn spec_names_model(names: Seq<Vec<u8>>) -> Seq<Seq<u8>> {
    Seq::new(names.len(), |i: int| names[i]@)
}

/// Whether some group in the sequence carries the given name.
pub open spec fn spec_groups_has_name(groups: Seq<GroupModel>, name: Seq<u8>) -> bool {
    exists|i: int| 0 <= i < groups.len() && groups[i].name == name
}

/// Index of the first group with the given name.
pub open spec fn spec_groups_name_index(groups: Seq<GroupModel>, name: Seq<u8>) -> int {
    choose|i: int|
        0 <= i < groups.len() && groups[i].name == name && forall|j: int|
            0 <= j < i ==> groups[j].name != name
}

/// `groups` with `login` appended to the member list of the first
/// group named `name`.
pub open spec fn spec_add_member(groups: Seq<GroupModel>, login: Seq<u8>, name: Seq<u8>) -> Seq<
    GroupModel,
>
    recommends
        spec_groups_has_name(groups, name),
{
    let i = spec_groups_name_index(groups, name);
    groups.update(
        i,
        GroupModel { gid: groups[i].gid, name: groups[i].name, members: groups[i].members.push(login) },
    )
}

/// `groups` after adding `login` to each named group in order,
/// stopping at the first name with no record; the second component
/// says whether every name was found.  Additions made before a missing
/// name stay made.
pub open spec fn spec_add_members(groups: Seq<GroupModel>, login: Seq<u8>, names: Seq<Seq<u8>>) -> (
    Seq<GroupModel>,
    bool,
)
    decreases names.len(),
{
    if names.len() == 0 {
        (groups, true)
    } else if !spec_groups_has_name(groups, names[0]) {
        (groups, false)
    } else {
        spec_add_members(spec_add_member(groups, login, names[0]), login, names.skip(1))
    }
}

/// `g` with the first occurrence of `login` removed from its member
/// list, if there is one.
pub open spec fn spec_remove_member(g: GroupModel, login: Seq<u8>) -> GroupModel {
    if g.has_member(login) {
        GroupModel { gid: g.gid, name: g.name, members: g.members.remove(g.member_index(login)) }
    } else {
        g
    }
}

/// A snapshot of the account database: all users and all groups.
#[derive(Debug, Clone, PartialEq, Eq)]
pub struct CredentialStore {
    pub users: Vec<UserRecord>,
    pub groups: Vec<GroupRecord>,
}

impl CredentialStore {
    /// The group records as their models.
    pub open spec fn groups_model(self) -> Seq<GroupModel> {
        Seq::new(self.groups@.len(), |i: int| self.groups@[i].model())
    }

    /// Whether some user record carries the given id.
    pub open spec fn spec_has_user_id(self, uid: u32) -> bool {
        exists|i: int| 0 <= i < self.users@.len() && self.users@[i].uid == uid
    }

    /// Index of the first user record with the given id.
    pub open spec fn spec_user_index(self, uid: u32) -> int {
        choose|i: int|
            0 <= i < self.users@.len() && self.users@[i].uid == uid && forall|j: int|
                0 <= j < i ==> self.users@[j].uid != uid
    }

    /// The first user record with the given id.
    pub open spec fn spec_user_by_id(self, uid: u32) -> UserRecord {
        self.users@[self.spec_user_index(uid)]
    }

    /// Look a user up by id; the first matching record wins.
    pub fn user_by_id(&self, uid: u32) -> (r: Option<&UserRecord>)
        ensures
            match r {
                Some(u) => self.spec_has_user_id(uid) && *u == self.spec_user_by_id(uid),
                None => !self.spec_has_user_id(uid),
            },
    {
        let n = self.users.len();
        let mut i: usize = 0;
        while i < n
            invariant
                n == self.users@.len(),
                i <= n,
                forall|j: int| 0 <= j < i ==> self.users@[j].uid != uid,
            decreases n - i,
        {
            if self.users[i].uid == uid {
                proof {
                    let w = i as int;
                    assert(0 <= w < self.users@.len() && self.users@[w].uid == uid
                        && forall|j: int| 0 <= j < w ==> self.users@[j].uid != uid);
                    let c = self.spec_user_index(uid);
                    if c != w {
                        if c < w {
                            assert(self.users@[c].uid != uid);
                        } else {
                            assert(self.users@[w].uid != uid);
                        }
                    }
                }
                return Some(&self.users[i]);
            }
            i += 1;
        }
        None
    }

    /// Whether some user record carries the given login name.
    pub open spec fn spec_has_user_name(self, name: Seq<u8>) -> bool {
        exists|i: int| 0 <= i < self.users@.len() && self.users@[i].name@ == name
    }

    /// Index of the first user record with the given name.
    pub open spec fn spec_user_name_index(self, name: Seq<u8>) -> int {
        choose|i: int|
            0 <= i < self.users@.len() && self.users@[i].name@ == name && forall|j: int|
                0 <= j < i ==> self.users@[j].name@ != name
    }

    /// The first user record with the given name.
    pub open spec fn spec_user_by_name(self, name: Seq<u8>) -> UserRecord {
        self.users@[self.spec_user_name_index(name)]
    }

    /// Look a user up by login name; the first matching record wins.
    pub fn user_by_name(&self, name: &[u8]) -> (r: Option<&UserRecord>)
        ensures
            match r {
                Some(u) => self.spec_has_user_name(name@) && *u == self.spec_user_by_name(name@),
                None => !self.spec_has_user_name(name@),
            },
    {
        let n = self.users.len();
        let mut i: usize = 0;
        while i < n
            invariant
                n == self.users@.len(),
                i <= n,
                forall|j: int| 0 <= j < i ==> self.users@[j].name@ != name@,
            decreases n - i,
        {
            if bytes_eq(self.users[i].name.as_slice(), name) {
                proof {
                    let w = i as int;
                    let c = self.spec_user_name_index(name@);
                    assert(0 <= w < self.users@.len() && self.users@[w].name@ == name@
                        && forall|j: int| 0 <= j < w ==> self.users@[j].name@ != name@);
                    if c != w {
                        if c < w {
                            assert(self.users@[c].name@ != name@);
                        } else {
                            assert(self.users@[w].name@ != name@);
                        }
                    }
                }
                return Some(&self.users[i]);
            }
            i += 1;
        }
        None
    }

    /// Whether some group record carries the given name.
    pub open spec fn spec_has_group_name(self, name: Seq<u8>) -> bool {
        exists|i: int| 0 <= i < self.groups@.len() && self.groups@[i].name@ == name
    }

    /// Index of the first group record with the given name.
    pub open spec fn spec_group_name_index(self, name: Seq<u8>) -> int {
        choose|i: int|
            0 <= i < self.groups@.len() && self.groups@[i].name@ == name && forall|j: int|
                0 <= j < i ==> self.groups@[j].name@ != name
    }

    /// The first group record with the given name.
    pub open spec fn spec_group_by_name(self, name: Seq<u8>) -> GroupRecord {
        self.groups@[self.spec_group_name_index(name)]
    }

    /// Look a group up by name; the first matching record wins.
    pub fn group_by_name(&self, name: &[u8]) -> (r: Option<&GroupRecord>)
        ensures
            match r {
                Some(g) => self.spec_has_group_name(name@) && *g == self.spec_group_by_name(name@),
                None => !self.spec_has_group_name(name@),
            },
    {
        let n = self.groups.len();
        let mut i: usize = 0;
        while i < n
            invariant
                n == self.groups@.len(),
                i <= n,
                forall|j: int| 0 <= j < i ==> self.groups@[j].name@ != name@,
            decreases n - i,
        {
            if bytes_eq(self.groups[i].name.as_slice(), name) {
                proof {
                    let w = i as int;
                    let c = self.spec_group_name_index(name@);
                    assert(0 <= w < self.groups@.len() && self.groups@[w].name@ == name@
                        && forall|j: int| 0 <= j < w ==> self.groups@[j].name@ != name@);
                    if c != w {
                        if c < w {
                            assert(self.groups@[c].name@ != name@);
                        } else {
                            assert(self.groups@[w].name@ != name@);
                        }
                    }
                }
                return Some(&self.groups[i]);
            }
            i += 1;
        }
        None
    }

    /// Index of the first group record with the given name.
    fn group_index_by_name(&self, name: &[u8]) -> (r: Option<usize>)
        ensures
            match r {
                Some(i) => {
                    &&& spec_groups_has_name(self.groups_model(), name@)
                    &&& i == spec_groups_name_index(self.groups_model(), name@)
                    &&& i < self.groups@.len()
                },
                None => !spec_groups_has_name(self.groups_model(), name@),
            },
    {
        let n = self.groups.len();
        let mut i: usize = 0;
        while i < n
            invariant
                n == self.groups@.len(),
                i <= n,
                forall|j: int| 0 <= j < i ==> self.groups@[j].name@ != name@,
            decreases n - i,
        {
            if bytes_eq(self.groups[i].name.as_slice(), name) {
                proof {
                    let gs = self.groups_model();
                    let w = i as int;
                    assert(gs[w].name == name@);
                    assert(forall|j: int| 0 <= j < w ==> gs[j].name != name@);
                    let c = spec_groups_name_index(gs, name@);
                    if c != w {
                        if c < w {
                            assert(gs[c].name != name@);
                        } else {
                            assert(gs[w].name != name@);
                        }
                    }
                }
                return Some(i);
            }
            i += 1;
        }
        proof {
            assert(forall|j: int|
                0 <= j < self.groups_model().len() ==> self.groups_model()[j].name != name@);
        }
        None
    }

    /// Add `login` to the member list of each group named in
    /// `new_groups`, in order.
    ///
    /// A name with no group record stops the walk there and reports
    /// the store's traditional missing-record error; members added
    /// before the stop stay added.
    pub fn add_user_to_groups(&mut self, login: &[u8], new_groups: &Vec<Vec<u8>>) -> (r: Result<
        (),
        StoreError,
    >)
        ensures
            final(self).users@ == old(self).users@,
            ({
                let (gs, ok) = spec_add_members(
                    old(self).groups_model(),
                    login@,
                    spec_names_model(new_groups@),
                );
                &&& final(self).groups_model() == gs
                &&& r == (if ok {
                    Ok::<(), StoreError>(())
                } else {
                    Err::<(), StoreError>(StoreError::UserNotFound)
                })
            }),
    {
        let ghost all_names = spec_names_model(new_groups@);
        let n = new_groups.len();
        let mut k: usize = 0;
        proof {
            assert(all_names.skip(0) =~= all_names);
        }
        while k < n
            invariant
                n == new_groups@.len(),
                k <= n,
                self.users@ == old(self).users@,
                all_names == spec_names_model(new_groups@),
                spec_add_members(old(self).groups_model(), login@, all_names)
                    == spec_add_members(self.groups_model(), login@, all_names.skip(k as int)),
            decreases n - k,
        {
            let ghost pending = all_names.skip(k as int);
            proof {
                assert(pending[0] == new_groups@[k as int]@);
            }
            let name = &new_groups[k];
            match self.group_index_by_name(name.as_slice()) {
                None => {
                    return Err(StoreError::UserNotFound);
                },
                Some(i) => {
                    let ghost pre = self.groups_model();
                    let member = vstd::slice::slice_to_vec(login);
                    self.groups[i].members.push(member);
                    proof {
                        assert(self.groups_model() =~~= spec_add_member(
                            pre,
                            login@,
                            new_groups@[k as int]@,
                        ));
                        assert(pending.skip(1) =~= all_names.skip(k as int + 1));
                    }
                    k += 1;
                },
            }
        }
        proof {
            assert(all_names.skip(n as int) =~= Seq::<Seq<u8>>::empty());
        }
        Ok(())
    }

    /// Remove `login` from every group of which it is a member.
    ///
    /// In each group the first occurrence of the name is removed, as
    /// the store has always done; a record holding the name twice
    /// keeps the second occurrence.
    pub fn remove_user_from_all_groups(&mut self, login: &[u8])
        ensures
            final(self).users@ == old(self).users@,
            final(self).groups@.len() == old(self).groups@.len(),
            forall|i: int|
                0 <= i < old(self).groups@.len() ==> final(self).groups_model()[i]
                    == spec_remove_member(old(self).groups_model()[i], login@),
    {
        let n = self.groups.len();
        let mut i: usize = 0;
        while i < n
            invariant
                n == self.groups@.len(),
                i <= n,
                self.users@ == old(self).users@,
                forall|j: int|
                    i <= j < n ==> self.groups_model()[j] == old(self).groups_model()[j],
                forall|j: int|
                    0 <= j < i ==> self.groups_model()[j] == spec_remove_member(
                        old(self).groups_model()[j],
                        login@,
                    ),
            decreases n - i,
        {
            let ghost pre = self.groups_model();
            let position = self.groups[i].member_position(login);
            match position {
                Some(k) => {
                    self.groups[i].members.remove(k);
                    proof {
                        assert(self.groups_model()[i as int] =~~= spec_remove_member(
                            pre[i as int],
                            login@,
                        ));
                    }
                },
                None => {
                    proof {
                        assert(self.groups_model()[i as int] == spec_remove_member(
                            pre[i as int],
                            login@,
                        ));
                    }
                },
            }
            proof {
                assert forall|j: int| 0 <= j <= i implies self.groups_model()[j]
                    == spec_remove_member(old(self).groups_model()[j], login@) by {
                    if j < i {
                        assert(self.groups_model()[j] == pre[j]);
                        assert(pre[j] == spec_remove_member(old(self).groups_model()[j], login@));
                    } else {
                        assert(pre[i as int] == old(self).groups_model()[i as int]);
                    }
                }
                assert forall|j: int| i + 1 <= j < n implies self.groups_model()[j] == old(
                    self,
                ).groups_model()[j] by {
                    assert(self.groups_model()[j] == pre[j]);
                    assert(pre[j] == old(self).groups_model()[j]);
                }
            }
            i += 1;
        }
    }

    /// The record a password-change request names: the user called
    /// `login` when a login name is given, the caller's own record
    /// otherwise.
    pub fn find_user(&self, login: Option<&[u8]>, caller_uid: u32) -> (r: Option<&UserRecord>)
        ensures
            match login {
                Some(name) => match r {
                    Some(u) => self.spec_has_user_name(name@) && *u == self.spec_user_by_name(
                        name@,
                    ),
                    None => !self.spec_has_user_name(name@),
                },
                None => match r {
                    Some(u) => self.spec_has_user_id(caller_uid) && *u == self.spec_user_by_id(
                        caller_uid,
                    ),
                    None => !self.spec_has_user_id(caller_uid),
                },
            },
    {
        match login {
            Some(name) => self.user_by_name(name),
            None => self.user_by_id(caller_uid),
        }
    }
}

} // verus!
