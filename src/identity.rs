//! User profiles: creation, validated updates, KYC level and agent status.

use vstd::prelude::*;
use vstd::string::*;
use vstd::utf8::encode_utf8;

use crate::types::strings_view;

verus! {

/// A user's public profile. The owner is identified by the text of their principal.
#[derive(Debug)]
pub struct UserProfile {
    pub principal_id: String,
    pub username: Option<String>,
    pub phone_number: Option<String>,
    pub email: Option<String>,
    pub avatar_url: Option<String>,
    pub bio: Option<String>,
    pub kyc_level: u8,
    pub is_agent: bool,
    pub badges: Vec<String>,
    pub created_at: u64,
    pub updated_at: u64,
}

/// The view of an optional string.
pub open spec fn opt_view(o: Option<String>) -> Option<Seq<char>> {
    match o {
        Some(s) => Some(s@),
        None => None,
    }
}

/// The mathematical content of a profile.
pub struct ProfileView {
    pub principal: Seq<char>,
    pub username: Option<Seq<char>>,
    pub phone_number: Option<Seq<char>>,
    pub email: Option<Seq<char>>,
    pub avatar_url: Option<Seq<char>>,
    pub bio: Option<Seq<char>>,
    pub kyc_level: u8,
    pub is_agent: bool,
    pub badges: Seq<Seq<char>>,
    pub created_at: u64,
    pub updated_at: u64,
}

impl View for UserProfile {
    type V = ProfileView;

    open spec fn view(&self) -> ProfileView {
        ProfileView {
            principal: self.principal_id@,
            username: opt_view(self.username),
            phone_number: opt_view(self.phone_number),
            email: opt_view(self.email),
            avatar_url: opt_view(self.avatar_url),
            bio: opt_view(self.bio),
            kyc_level: self.kyc_level,
            is_agent: self.is_agent,
            badges: strings_view(self.badges@),
            created_at: self.created_at,
            updated_at: self.updated_at,
        }
    }
}

fn clone_opt(o: &Option<String>) -> (r: Option<String>)
    ensures
        opt_view(r) == opt_view(*o),
{
    match o {
        Some(s) => Some(s.clone()),
        None => None,
    }
}

impl Clone for UserProfile {
    fn clone(&self) -> (r: Self)
        ensures
            r@ == self@,
    {
        let badges = self.badges.clone();
        assert(badges@ =~= self.badges@);
        UserProfile {
            principal_id: self.principal_id.clone(),
            username: clone_opt(&self.username),
            phone_number: clone_opt(&self.phone_number),
            email: clone_opt(&self.email),
            avatar_url: clone_opt(&self.avatar_url),
            bio: clone_opt(&self.bio),
            kyc_level: self.kyc_level,
            is_agent: self.is_agent,
            badges,
            created_at: self.created_at,
            updated_at: self.updated_at,
        }
    }
}

/// The fields a user may change on their profile; `None` leaves a field as it is.
#[derive(Debug)]
pub struct UpdateProfileParams {
    pub username: Option<String>,
    pub phone_number: Option<String>,
    pub email: Option<String>,
    pub avatar_url: Option<String>,
    pub bio: Option<String>,
}

/// Why a profile operation was refused.
#[derive(Clone, Debug, PartialEq, Eq)]
pub enum ProfileError {
    NotFound,
    Unauthorized,
    UsernameAlreadyTaken,
    InvalidInput(String),
}

/// Shortest username, in UTF-8 bytes.
pub const USERNAME_MIN_BYTES: usize = 3;
/// Longest username, in UTF-8 bytes.
pub const USERNAME_MAX_BYTES: usize = 20;
/// Longest bio, in UTF-8 bytes.
pub const BIO_MAX_BYTES: usize = 500;
/// The highest KYC level.
pub const MAX_KYC_LEVEL: u8 = 3;

/// The length of a string in UTF-8 bytes, as `str::len` gives it.
pub open spec fn byte_len(s: Seq<char>) -> usize {
    encode_utf8(s).len() as usize
}

/// Some profile has principal `p`.
pub open spec fn has_profile(s: Seq<ProfileView>, p: Seq<char>) -> bool {
    exists|i: int| 0 <= i < s.len() && #[trigger] s[i].principal == p
}

/// The position of the profile of principal `p`.
pub open spec fn profile_slot(s: Seq<ProfileView>, p: Seq<char>) -> int {
    choose|i: int| 0 <= i < s.len() && #[trigger] s[i].principal == p
}

/// Someone other than `p` holds the username `name`.
pub open spec fn username_taken(s: Seq<ProfileView>, name: Seq<char>, p: Seq<char>) -> bool {
    exists|i: int| 0 <= i < s.len() && #[trigger] s[i].username == Some(name) && s[i].principal != p
}

/// The new value of an optional field: the update's, when it has one.
pub open spec fn updated_field(old: Option<Seq<char>>, new: Option<String>) -> Option<Seq<char>> {
    match new {
        Some(v) => Some(v@),
        None => old,
    }
}

/// The error that an update is refused with, if any: a username outside 3 to 20 bytes, a
/// username held by someone else, or a bio over 500 bytes.
pub open spec fn update_error(s: Seq<ProfileView>, p: Seq<char>, params: UpdateProfileParams) -> Option<ProfileError> {
    match params.username {
        Some(u) if byte_len(u@) < USERNAME_MIN_BYTES || byte_len(u@) > USERNAME_MAX_BYTES =>
            Some(ProfileError::InvalidInput(arbitrary())),
        Some(u) if username_taken(s, u@, p) => Some(ProfileError::UsernameAlreadyTaken),
        _ => match params.bio {
            Some(b) if byte_len(b@) > BIO_MAX_BYTES => Some(ProfileError::InvalidInput(arbitrary())),
            _ => None,
        },
    }
}

/// A profile after a successful update at time `now`.
pub open spec fn updated_profile(e: ProfileView, params: UpdateProfileParams, now: u64) -> ProfileView {
    ProfileView {
        username: updated_field(e.username, params.username),
        phone_number: updated_field(e.phone_number, params.phone_number),
        email: updated_field(e.email, params.email),
        avatar_url: updated_field(e.avatar_url, params.avatar_url),
        bio: updated_field(e.bio, params.bio),
        updated_at: now,
        ..e
    }
}

/// At most one profile per principal, and at most one holder per username.
pub open spec fn profiles_valid(s: Seq<ProfileView>) -> bool {
    &&& forall|i: int, j: int|
        0 <= i < s.len() && 0 <= j < s.len() && i != j ==> #[trigger] s[i].principal
            != #[trigger] s[j].principal
    &&& forall|i: int, j: int|
        0 <= i < s.len() && 0 <= j < s.len() && i != j && s[i].username is Some
            ==> #[trigger] s[i].username != #[trigger] s[j].username
}

/// The profiles, in order, of agents.
pub open spec fn agents_of(s: Seq<ProfileView>) -> Seq<ProfileView> {
    s.filter(|p: ProfileView| p.is_agent)
}

/// Some profile holds the username `name`.
pub open spec fn has_username(s: Seq<ProfileView>, name: Seq<char>) -> bool {
    exists|i: int| 0 <= i < s.len() && #[trigger] s[i].username == Some(name)
}

/// The position of the profile holding the username `name`.
pub open spec fn username_slot(s: Seq<ProfileView>, name: Seq<char>) -> int {
    choose|i: int| 0 <= i < s.len() && #[trigger] s[i].username == Some(name)
}

/// The profiles, in order of creation.
pub struct ProfileStore {
    profiles: Vec<UserProfile>,
}

/// The views of a sequence of profiles.
pub open spec fn profiles_view(ps: Seq<UserProfile>) -> Seq<ProfileView> {
    ps.map_values(|p: UserProfile| p@)
}

impl View for ProfileStore {
    type V = Seq<ProfileView>;

    closed spec fn view(&self) -> Seq<ProfileView> {
        profiles_view(self.profiles@)
    }
}

fn same_opt(a: &Option<String>, b: &String) -> (r: bool)
    ensures
        r == (opt_view(*a) == Some(b@)),
{
    match a {
        Some(x) => *x == *b,
        None => false,
    }
}

impl ProfileStore {
    /// One profile per principal and one holder per username.
    pub open spec fn wf(&self) -> bool {
        profiles_valid(self@)
    }

    /// An empty store.
    pub fn new() -> (r: Self)
        ensures
            r.wf(),
            r@ == Seq::<ProfileView>::empty(),
    {
        let r = ProfileStore { profiles: Vec::new() };
        assert(r@ =~= Seq::<ProfileView>::empty());
        r
    }

    fn find(&self, principal: &String) -> (r: Option<usize>)
        requires
            self.wf(),
        ensures
            has_profile(self@, principal@) ==> (r matches Some(i) && i as int == profile_slot(
                self@,
                principal@,
            )),
            !has_profile(self@, principal@) ==> r is None,
            r matches Some(i) ==> i < self@.len(),
    {
        let mut i: usize = 0;
        while i < self.profiles.len()
            invariant
                self.wf(),
                i <= self@.len(),
                self@.len() == self.profiles@.len(),
                forall|j: int| 0 <= j < i ==> #[trigger] self@[j].principal != principal@,
            decreases self.profiles@.len() - i,
        {
            assert(self@[i as int] == self.profiles@[i as int]@);
            if self.profiles[i].principal_id == *principal {
                assert(self@[i as int].principal == principal@);
                return Some(i);
            }
            i = i + 1;
        }
        None
    }

    fn taken_by_other(&self, name: &String, principal: &String) -> (r: bool)
        ensures
            r == username_taken(self@, name@, principal@),
    {
        let mut i: usize = 0;
        while i < self.profiles.len()
            invariant
                i <= self@.len(),
                self@.len() == self.profiles@.len(),
                forall|j: int|
                    0 <= j < i ==> !(#[trigger] self@[j].username == Some(name@) && self@[j].principal
                        != principal@),
            decreases self.profiles@.len() - i,
        {
            assert(self@[i as int] == self.profiles@[i as int]@);
            let p = &self.profiles[i];
            if same_opt(&p.username, name) && p.principal_id != *principal {
                assert(self@[i as int].username == Some(name@) && self@[i as int].principal != principal@);
                return true;
            }
            i = i + 1;
        }
        false
    }

    /// Creates an empty profile for `caller`; a second one is refused.
    pub fn create_profile(&mut self, caller: &String, now: u64) -> (r: Result<UserProfile, ProfileError>)
        requires
            old(self).wf(),
        ensures
            final(self).wf(),
            has_profile(old(self)@, caller@) ==> (r matches Err(ProfileError::InvalidInput(_))
                && final(self)@ == old(self)@),
            !has_profile(old(self)@, caller@) ==> (r matches Ok(p) && final(self)@ == old(self)@.push(
                p@,
            ) && p@ == (ProfileView {
                principal: caller@,
                username: None,
                phone_number: None,
                email: None,
                avatar_url: None,
                bio: None,
                kyc_level: 0,
                is_agent: false,
                badges: Seq::empty(),
                created_at: now,
                updated_at: now,
            })),
    {
        if self.find(caller).is_some() {
            return Err(ProfileError::InvalidInput(String::from_str("Profile already exists")));
        }
        let profile = UserProfile {
            principal_id: caller.clone(),
            username: None,
            phone_number: None,
            email: None,
            avatar_url: None,
            bio: None,
            kyc_level: 0,
            is_agent: false,
            badges: Vec::new(),
            created_at: now,
            updated_at: now,
        };
        assert(strings_view(profile.badges@) =~= Seq::empty());
        let out = profile.clone();
        let ghost before = self@;
        let ghost v = profile@;
        self.profiles.push(profile);
        assert(self@ =~= before.push(v));
        assert forall|i: int, j: int|
            0 <= i < self@.len() && 0 <= j < self@.len() && i != j implies #[trigger] self@[i].principal
                != #[trigger] self@[j].principal by {
            if i < before.len() {
                assert(self@[i] == before[i]);
            }
            if j < before.len() {
                assert(self@[j] == before[j]);
            }
        }
        assert forall|i: int, j: int|
            0 <= i < self@.len() && 0 <= j < self@.len() && i != j && self@[i].username is Some
                implies #[trigger] self@[i].username != #[trigger] self@[j].username by {
            if i < before.len() {
                assert(self@[i] == before[i]);
            }
            if j < before.len() {
                assert(self@[j] == before[j]);
            }
        }
        Ok(out)
    }

    /// The profile of `principal`.
    pub fn get_profile(&self, principal: &String) -> (r: Option<UserProfile>)
        requires
            self.wf(),
        ensures
            has_profile(self@, principal@) ==> (r matches Some(p) && p@ == self@[profile_slot(
                self@,
                principal@,
            )]),
            !has_profile(self@, principal@) ==> r is None,
    {
        match self.find(principal) {
            None => None,
            Some(i) => {
                assert(self@[i as int] == self.profiles@[i as int]@);
                Some(self.profiles[i].clone())
            },
        }
    }

    /// Changes the given fields of `caller`'s profile. The whole update is checked before
    /// anything is changed.
    pub fn update_profile(&mut self, caller: &String, params: UpdateProfileParams, now: u64) -> (r:
        Result<UserProfile, ProfileError>)
        requires
            old(self).wf(),
        ensures
            final(self).wf(),
            !has_profile(old(self)@, caller@) ==> r == Err::<UserProfile, ProfileError>(
                ProfileError::NotFound,
            ),
            has_profile(old(self)@, caller@) ==> match update_error(old(self)@, caller@, params) {
                Some(ProfileError::InvalidInput(_)) => r matches Err(ProfileError::InvalidInput(_)),
                Some(e) => r == Err::<UserProfile, ProfileError>(e),
                None => {
                    let i = profile_slot(old(self)@, caller@);
                    let p = updated_profile(old(self)@[i], params, now);
                    &&& r matches Ok(x)
                    &&& r->Ok_0@ == p
                    &&& final(self)@ == old(self)@.update(i, p)
                },
            },
            r is Err ==> final(self)@ == old(self)@,
    {
        let i = match self.find(caller) {
            None => {
                return Err(ProfileError::NotFound);
            },
            Some(i) => i,
        };
        if let Some(name) = &params.username {
            let n = name.as_str().len();
            if n < USERNAME_MIN_BYTES || n > USERNAME_MAX_BYTES {
                return Err(ProfileError::InvalidInput(String::from_str("Username must be 3-20 characters")));
            }
            if self.taken_by_other(name, caller) {
                return Err(ProfileError::UsernameAlreadyTaken);
            }
        }
        if let Some(bio) = &params.bio {
            if bio.as_str().len() > BIO_MAX_BYTES {
                return Err(ProfileError::InvalidInput(String::from_str("Bio must be under 500 characters")));
            }
        }
        assert(self@[i as int] == self.profiles@[i as int]@);
        let mut p = self.profiles[i].clone();
        let ghost before = self@;
        let ghost target = updated_profile(before[i as int], params, now);
        let UpdateProfileParams { username, phone_number, email, avatar_url, bio } = params;
        if let Some(v) = username {
            p.username = Some(v);
        }
        if let Some(v) = phone_number {
            p.phone_number = Some(v);
        }
        if let Some(v) = email {
            p.email = Some(v);
        }
        if let Some(v) = avatar_url {
            p.avatar_url = Some(v);
        }
        if let Some(v) = bio {
            p.bio = Some(v);
        }
        p.updated_at = now;
        assert(p@ == target);
        let out = p.clone();
        self.profiles.set(i, p);
        assert(self@ =~= before.update(i as int, target));
        assert forall|a: int, b: int|
            0 <= a < self@.len() && 0 <= b < self@.len() && a != b implies #[trigger] self@[a].principal
                != #[trigger] self@[b].principal by {
            assert(before[a].principal == self@[a].principal);
            assert(before[b].principal == self@[b].principal);
        }
        assert forall|a: int, b: int|
            0 <= a < self@.len() && 0 <= b < self@.len() && a != b && self@[a].username is Some
                implies #[trigger] self@[a].username != #[trigger] self@[b].username by {
            if a != i && b != i {
                assert(self@[a] == before[a] && self@[b] == before[b]);
            } else if a == i {
                assert(self@[b] == before[b]);
                if target.username != before[i as int].username {
                    assert(before[b].principal != caller@);
                }
            } else {
                assert(self@[a] == before[a]);
                if target.username != before[i as int].username {
                    assert(before[a].principal != caller@);
                }
            }
        }
        Ok(out)
    }

    /// Sets the KYC level of `principal`; levels above 3 are refused.
    pub fn update_kyc_level(&mut self, principal: &String, kyc_level: u8, now: u64) -> (r: Result<
        UserProfile,
        ProfileError,
    >)
        requires
            old(self).wf(),
        ensures
            final(self).wf(),
            kyc_level > MAX_KYC_LEVEL ==> r matches Err(ProfileError::InvalidInput(_)),
            kyc_level <= MAX_KYC_LEVEL && !has_profile(old(self)@, principal@) ==> r == Err::<
                UserProfile,
                ProfileError,
            >(ProfileError::NotFound),
            kyc_level <= MAX_KYC_LEVEL && has_profile(old(self)@, principal@) ==> {
                let i = profile_slot(old(self)@, principal@);
                let p = ProfileView { kyc_level, updated_at: now, ..old(self)@[i] };
                &&& r matches Ok(x)
                &&& r->Ok_0@ == p
                &&& final(self)@ == old(self)@.update(i, p)
            },
            r is Err ==> final(self)@ == old(self)@,
    {
        if kyc_level > MAX_KYC_LEVEL {
            return Err(ProfileError::InvalidInput(String::from_str("KYC level must be 0-3")));
        }
        match self.find(principal) {
            None => Err(ProfileError::NotFound),
            Some(i) => {
                assert(self@[i as int] == self.profiles@[i as int]@);
                let mut p = self.profiles[i].clone();
                p.kyc_level = kyc_level;
                p.updated_at = now;
                let out = p.clone();
                let ghost before = self@;
                let ghost v = p@;
                self.profiles.set(i, p);
                assert(self@ =~= before.update(i as int, v));
                assert forall|a: int| 0 <= a < self@.len() implies #[trigger] self@[a].principal
                    == before[a].principal && self@[a].username == before[a].username by {}
                Ok(out)
            },
        }
    }

    /// Marks `principal` as an agent or not.
    pub fn set_agent_status(&mut self, principal: &String, is_agent: bool, now: u64) -> (r: Result<
        UserProfile,
        ProfileError,
    >)
        requires
            old(self).wf(),
        ensures
            final(self).wf(),
            !has_profile(old(self)@, principal@) ==> r == Err::<UserProfile, ProfileError>(
                ProfileError::NotFound,
            ) && final(self)@ == old(self)@,
            has_profile(old(self)@, principal@) ==> {
                let i = profile_slot(old(self)@, principal@);
                let p = ProfileView { is_agent, updated_at: now, ..old(self)@[i] };
                &&& r matches Ok(x)
                &&& r->Ok_0@ == p
                &&& final(self)@ == old(self)@.update(i, p)
            },
    {
        match self.find(principal) {
            None => Err(ProfileError::NotFound),
            Some(i) => {
                assert(self@[i as int] == self.profiles@[i as int]@);
                let mut p = self.profiles[i].clone();
                p.is_agent = is_agent;
                p.updated_at = now;
                let out = p.clone();
                let ghost before = self@;
                let ghost v = p@;
                self.profiles.set(i, p);
                assert(self@ =~= before.update(i as int, v));
                assert forall|a: int| 0 <= a < self@.len() implies #[trigger] self@[a].principal
                    == before[a].principal && self@[a].username == before[a].username by {}
                Ok(out)
            },
        }
    }

    /// The number of profiles.
    pub fn get_total_users(&self) -> (r: u64)
        ensures
            r == self@.len(),
    {
        assert(self@.len() == self.profiles@.len());
        self.profiles.len() as u64
    }

    /// The profiles of agents, in order of creation.
    pub fn get_agents(&self) -> (r: Vec<UserProfile>)
        ensures
            profiles_view(r@) == agents_of(self@),
    {
        let mut out: Vec<UserProfile> = Vec::new();
        let mut i: usize = 0;
        assert(self@.len() == self.profiles@.len());
        while i < self.profiles.len()
            invariant
                i <= self@.len(),
                self@.len() == self.profiles@.len(),
                profiles_view(out@) == agents_of(self@.subrange(0, i as int)),
            decreases self.profiles@.len() - i,
        {
            let ghost prev = out@;
            assert(self@[i as int] == self.profiles@[i as int]@);
            let p = &self.profiles[i];
            if p.is_agent {
                out.push(p.clone());
                assert(profiles_view(out@) =~= profiles_view(prev).push(self@[i as int]));
            }
            proof {
                let s1 = self@.subrange(0, i + 1);
                assert(s1.drop_last() =~= self@.subrange(0, i as int));
                assert(s1.last() == self@[i as int]);
                reveal(Seq::filter);
                assert(agents_of(s1) == if s1.last().is_agent {
                    agents_of(s1.drop_last()).push(s1.last())
                } else {
                    agents_of(s1.drop_last())
                });
            }
            i = i + 1;
        }
        assert(self@.subrange(0, i as int) =~= self@);
        out
    }

    /// The profile holding the username `username`.
    pub fn search_by_username(&self, username: &String) -> (r: Option<UserProfile>)
        requires
            self.wf(),
        ensures
            has_username(self@, username@) ==> (r matches Some(p) && p@ == self@[username_slot(
                self@,
                username@,
            )]),
            !has_username(self@, username@) ==> r is None,
    {
        let mut i: usize = 0;
        while i < self.profiles.len()
            invariant
                self.wf(),
                i <= self@.len(),
                self@.len() == self.profiles@.len(),
                forall|j: int| 0 <= j < i ==> #[trigger] self@[j].username != Some(username@),
            decreases self.profiles@.len() - i,
        {
            assert(self@[i as int] == self.profiles@[i as int]@);
            if same_opt(&self.profiles[i].username, username) {
                proof {
                    assert(self@[i as int].username == Some(username@));
                    let k = username_slot(self@, username@);
                    if k != i {
                        assert(self@[k].username == Some(username@));
                    }
                }
                return Some(self.profiles[i].clone());
            }
            i = i + 1;
        }
        None
    }
}

} // verus!
