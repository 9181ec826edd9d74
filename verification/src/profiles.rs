//! The user-profile registry: a small companion service keeping one
//! profile per identity.  Its partitions are bound through the process's
//! one backing store, under tags of their own, beside the factory's.

use vstd::prelude::*;
use vstd::bytes::lemma_auto_spec_u64_to_from_le_bytes;
use vstd::utf8::encode_utf8;
use crate::codec::{
    enc_u8, enc_bytes, enc_str, enc_u64, dec_u8, dec_bytes, dec_str, dec_u64, lemma_dec_u8,
    lemma_dec_bytes, lemma_dec_str, lemma_dec_u64, write_u8, write_bytes, write_str, write_u64,
    read_u8, read_bytes, read_str, read_u64, note_text_fits,
};
use crate::identity::{Identity, MAX_IDENTITY_LEN};
use crate::types::StoreValue;
use crate::typed::{typed_inv, typed_view, typed_get, typed_insert, typed_contains, typed_entries,
    typed_revalidate, entries_match};
use crate::store::{Partition, Backing, backing_used, open_partition, reopen_partition};
use crate::errors::Error;

verus! {

/// Partition tag of the profile map, disjoint from the factory's tags.
pub const USER_DATA_TAG: u8 = 4;

/// Partition tag reserved for the registry's token-record map.
pub const TOKEN_DATA_TAG: u8 = 5;

/// A talent's self-reported numbers.
#[derive(Clone, Copy, PartialEq, Eq, Structural, Debug)]
pub struct UserStats {
    pub years_experience: u8,
    pub projects_completed: u8,
    pub client_satisfaction: u8,
}

/// One identity's profile.
#[derive(Debug)]
pub struct UserProfile {
    pub id: Identity,
    pub name: String,
    pub skill: String,
    pub description: String,
    pub achievements: Vec<String>,
    pub stats: UserStats,
}

/// The abstract form of a [`UserProfile`].
#[verifier::ext_equal]
pub struct UserProfileV {
    pub id: Seq<u8>,
    pub name: Seq<char>,
    pub skill: Seq<char>,
    pub description: Seq<char>,
    pub achievements: Seq<Seq<char>>,
    pub stats: UserStats,
}

impl View for UserProfile {
    type V = UserProfileV;

    open spec fn view(&self) -> UserProfileV {
        UserProfileV {
            id: self.id@,
            name: self.name@,
            skill: self.skill@,
            description: self.description@,
            achievements: self.achievements@.map_values(|s: String| s@),
            stats: self.stats,
        }
    }
}

// ---------------------------------------------------------------------------
// Text lists, one length-prefixed string after another
// ---------------------------------------------------------------------------
/// The elements of a text list.
pub open spec fn enc_str_items(l: Seq<Seq<char>>) -> Seq<u8>
    decreases l.len(),
{
    if l.len() == 0 {
        Seq::empty()
    } else {
        enc_str(l[0]) + enc_str_items(l.drop_first())
    }
}

/// Parses `n` text elements at `i`.
pub open spec fn dec_str_items(b: Seq<u8>, i: int, n: nat) -> Option<(Seq<Seq<char>>, int)>
    decreases n,
{
    if n == 0 {
        Some((Seq::empty(), i))
    } else {
        match dec_str(b, i) {
            Option::None => None,
            Option::Some((s, j)) => match dec_str_items(b, j, (n - 1) as nat) {
                Option::None => None,
                Option::Some((rest, k)) => Some((seq![s] + rest, k)),
            },
        }
    }
}

/// Appending one element extends the elements' encoding at the end.
pub proof fn lemma_enc_str_items_push(l: Seq<Seq<char>>, x: Seq<char>)
    ensures
        enc_str_items(l.push(x)) == enc_str_items(l) + enc_str(x),
    decreases l.len(),
{
    if l.len() == 0 {
        assert(l.push(x)[0] == x);
        assert(l.push(x).drop_first() =~= Seq::<Seq<char>>::empty());
        assert(enc_str_items(l.push(x)) =~= enc_str_items(l) + enc_str(x));
    } else {
        assert(l.push(x).drop_first() =~= l.drop_first().push(x));
        assert(l.push(x)[0] == l[0]);
        lemma_enc_str_items_push(l.drop_first(), x);
        let a = enc_str(l[0]);
        let m = enc_str_items(l.drop_first());
        let e = enc_str(x);
        assert(enc_str_items(l.push(x)) == enc_str(l.push(x)[0]) + enc_str_items(
            l.push(x).drop_first(),
        ));
        assert(enc_str_items(l.push(x)) == a + (m + e));
        assert(a + (m + e) =~= (a + m) + e);
        assert(enc_str_items(l.push(x)) =~= enc_str_items(l) + enc_str(x));
    }
}

/// Parsing a buffer that carries the elements' encoding yields them back.
pub proof fn lemma_dec_str_items(b: Seq<u8>, i: int, l: Seq<Seq<char>>)
    requires
        0 <= i,
        forall|q: int| 0 <= q < l.len() ==> encode_utf8(#[trigger] l[q]).len() <= u64::MAX,
        i + enc_str_items(l).len() <= b.len(),
        b.subrange(i, i + enc_str_items(l).len() as int) == enc_str_items(l),
    ensures
        dec_str_items(b, i, l.len()) == Some((l, i + enc_str_items(l).len() as int)),
    decreases l.len(),
{
    lemma_auto_spec_u64_to_from_le_bytes();
    if l.len() == 0 {
        assert(l =~= Seq::<Seq<char>>::empty());
    } else {
        let e0 = enc_str(l[0]);
        let rest = l.drop_first();
        let er = enc_str_items(rest);
        assert(enc_str_items(l) == e0 + er);
        assert(e0.len() == 8 + encode_utf8(l[0]).len()) by {
            assert(e0 == enc_u64(encode_utf8(l[0]).len() as u64) + encode_utf8(l[0]));
        }
        assert(b.subrange(i, i + e0.len() as int) =~= e0);
        lemma_dec_str(b, i, l[0]);
        let j = i + e0.len() as int;
        assert forall|q: int| 0 <= q < er.len() implies b[j + q] == er[q] by {
            assert(b.subrange(i, i + enc_str_items(l).len() as int)[e0.len() + q] == er[q]);
        }
        assert(b.subrange(j, j + er.len() as int) =~= er);
        lemma_dec_str_items(b, j, rest);
        assert(seq![l[0]] + rest =~= l);
    }
}

impl StoreValue for UserProfile {
    open spec fn abs_wf(v: UserProfileV) -> bool {
        &&& v.id.len() <= MAX_IDENTITY_LEN
        &&& encode_utf8(v.name).len() <= u64::MAX
        &&& encode_utf8(v.skill).len() <= u64::MAX
        &&& encode_utf8(v.description).len() <= u64::MAX
        &&& v.achievements.len() <= u64::MAX
        &&& forall|q: int|
            0 <= q < v.achievements.len() ==> encode_utf8(#[trigger] v.achievements[q]).len()
                <= u64::MAX
    }

    open spec fn enc(v: UserProfileV) -> Seq<u8> {
        enc_bytes(v.id) + enc_str(v.name) + enc_str(v.skill) + enc_str(v.description) + enc_u64(
            v.achievements.len() as u64,
        ) + enc_str_items(v.achievements) + enc_u8(v.stats.years_experience) + enc_u8(
            v.stats.projects_completed,
        ) + enc_u8(v.stats.client_satisfaction)
    }

    open spec fn dec(b: Seq<u8>) -> Option<UserProfileV> {
        match dec_bytes(b, 0) {
            Option::None => None,
            Option::Some((id, i1)) => match dec_str(b, i1) {
                Option::None => None,
                Option::Some((name, i2)) => match dec_str(b, i2) {
                    Option::None => None,
                    Option::Some((skill, i3)) => match dec_str(b, i3) {
                        Option::None => None,
                        Option::Some((description, i4)) => match dec_u64(b, i4) {
                            Option::None => None,
                            Option::Some((n, i5)) => match dec_str_items(b, i5, n as nat) {
                                Option::None => None,
                                Option::Some((achievements, i6)) => match dec_u8(b, i6) {
                                    Option::None => None,
                                    Option::Some((ye, i7)) => match dec_u8(b, i7) {
                                        Option::None => None,
                                        Option::Some((pc, i8)) => match dec_u8(b, i8) {
                                            Option::None => None,
                                            Option::Some((cs, i9)) => if id.len()
                                                <= MAX_IDENTITY_LEN {
                                                Some(
                                                    UserProfileV {
                                                        id,
                                                        name,
                                                        skill,
                                                        description,
                                                        achievements,
                                                        stats: UserStats {
                                                            years_experience: ye,
                                                            projects_completed: pc,
                                                            client_satisfaction: cs,
                                                        },
                                                    },
                                                )
                                            } else {
                                                None
                                            },
                                        },
                                    },
                                },
                            },
                        },
                    },
                },
            },
        }
    }

    proof fn lemma_round_trip(v: UserProfileV) {
        lemma_auto_spec_u64_to_from_le_bytes();
        let e1 = enc_bytes(v.id);
        let e2 = enc_str(v.name);
        let e3 = enc_str(v.skill);
        let e4 = enc_str(v.description);
        let e5 = enc_u64(v.achievements.len() as u64);
        let e6 = enc_str_items(v.achievements);
        let e7 = enc_u8(v.stats.years_experience);
        let e8 = enc_u8(v.stats.projects_completed);
        let e9 = enc_u8(v.stats.client_satisfaction);
        let b = Self::enc(v);
        assert(e1.len() == 8 + v.id.len());
        assert(e2.len() == 8 + encode_utf8(v.name).len());
        assert(e3.len() == 8 + encode_utf8(v.skill).len());
        assert(e4.len() == 8 + encode_utf8(v.description).len());
        assert(e5.len() == 8 && e7.len() == 1 && e8.len() == 1 && e9.len() == 1);
        let o1 = e1.len() as int;
        let o2 = o1 + e2.len();
        let o3 = o2 + e3.len();
        let o4 = o3 + e4.len();
        let o5 = o4 + 8;
        let o6 = o5 + e6.len();
        let o7 = o6 + 1;
        let o8 = o7 + 1;
        let o9 = o8 + 1;
        assert(b.len() == o9);
        assert(b.subrange(0, o1) =~= e1);
        lemma_dec_bytes(b, 0, v.id);
        assert(b.subrange(o1, o2) =~= e2);
        lemma_dec_str(b, o1, v.name);
        assert(b.subrange(o2, o3) =~= e3);
        lemma_dec_str(b, o2, v.skill);
        assert(b.subrange(o3, o4) =~= e4);
        lemma_dec_str(b, o3, v.description);
        assert(b.subrange(o4, o5) =~= e5);
        lemma_dec_u64(b, o4, v.achievements.len() as u64);
        assert forall|q: int| 0 <= q < e6.len() implies b[o5 + q] == e6[q] by {
            assert(b[o5 + q] == e6[q]);
        }
        assert(b.subrange(o5, o6) =~= e6);
        lemma_dec_str_items(b, o5, v.achievements);
        assert(b.subrange(o6, o7) =~= e7);
        lemma_dec_u8(b, o6, v.stats.years_experience);
        assert(b.subrange(o7, o8) =~= e8);
        lemma_dec_u8(b, o7, v.stats.projects_completed);
        assert(b.subrange(o8, o9) =~= e9);
        lemma_dec_u8(b, o8, v.stats.client_satisfaction);
        assert(Self::dec(b) matches Some(w) && w =~= v);
    }

    fn encode(&self) -> (r: Vec<u8>) {
        let mut out: Vec<u8> = Vec::new();
        write_bytes(&mut out, self.id.as_bytes());
        write_str(&mut out, &self.name);
        write_str(&mut out, &self.skill);
        write_str(&mut out, &self.description);
        write_u64(&mut out, self.achievements.len() as u64);
        let ghost items: Seq<Seq<char>> = self.achievements@.map_values(|s: String| s@);
        let ghost head: Seq<u8> = out@;
        let n = self.achievements.len();
        let mut k: usize = 0;
        while k < n
            invariant
                n == self.achievements@.len(),
                0 <= k <= n,
                items == self.achievements@.map_values(|s: String| s@),
                items.len() == n,
                out@ == head + enc_str_items(items.subrange(0, k as int)),
            decreases n - k,
        {
            proof {
                lemma_enc_str_items_push(items.subrange(0, k as int), items[k as int]);
                assert(items.subrange(0, k as int).push(items[k as int]) =~= items.subrange(
                    0,
                    k as int + 1,
                ));
            }
            write_str(&mut out, &self.achievements[k]);
            k += 1;
        }
        write_u8(&mut out, self.stats.years_experience);
        write_u8(&mut out, self.stats.projects_completed);
        write_u8(&mut out, self.stats.client_satisfaction);
        proof {
            assert(items.subrange(0, n as int) =~= items);
            assert(out@ =~= Self::enc(self@));
        }
        out
    }

    fn decode(b: &Vec<u8>) -> (r: Option<Self>) {
        let r1 = read_bytes(b, 0);
        if r1.is_none() {
            return None;
        }
        let (id_bytes, i1) = r1.unwrap();
        let r2 = read_str(b, i1);
        if r2.is_none() {
            return None;
        }
        let (name, i2) = r2.unwrap();
        let r3 = read_str(b, i2);
        if r3.is_none() {
            return None;
        }
        let (skill, i3) = r3.unwrap();
        let r4 = read_str(b, i3);
        if r4.is_none() {
            return None;
        }
        let (description, i4) = r4.unwrap();
        let r5 = read_u64(b, i4);
        if r5.is_none() {
            return None;
        }
        let (n, start) = r5.unwrap();
        let mut achievements: Vec<String> = Vec::new();
        let mut cur: usize = start;
        let mut k: u64 = 0;
        while k < n
            invariant
                0 <= k <= n,
                achievements@.len() == k,
                dec_bytes(b@, 0) == Some((id_bytes@, i1 as int)),
                dec_str(b@, i1 as int) == Some((name@, i2 as int)),
                dec_str(b@, i2 as int) == Some((skill@, i3 as int)),
                dec_str(b@, i3 as int) == Some((description@, i4 as int)),
                dec_u64(b@, i4 as int) == Some((n, start as int)),
                ({
                    let acc = achievements@.map_values(|s: String| s@);
                    match dec_str_items(b@, cur as int, (n - k) as nat) {
                        Option::Some((rest, end)) => dec_str_items(b@, start as int, n as nat)
                            == Some((acc + rest, end)),
                        Option::None => dec_str_items(b@, start as int, n as nat) is None,
                    }
                }),
            decreases n - k,
        {
            let ghost acc0 = achievements@.map_values(|s: String| s@);
            let re = read_str(b, cur);
            if re.is_none() {
                return None;
            }
            let (s, j) = re.unwrap();
            achievements.push(s);
            proof {
                assert(achievements@.map_values(|s2: String| s2@) =~= acc0.push(
                    achievements@[k as int]@,
                ));
                let d = dec_str_items(b@, j as int, (n - k - 1) as nat);
                if d is Some {
                    let rest2 = d->Some_0.0;
                    assert(acc0.push(achievements@[k as int]@) + rest2 =~= acc0 + (seq![
                        achievements@[k as int]@,
                    ] + rest2));
                }
            }
            cur = j;
            k += 1;
        }
        proof {
            let acc = achievements@.map_values(|s: String| s@);
            assert(dec_str_items(b@, cur as int, 0) == Some((Seq::<Seq<char>>::empty(), cur as int)));
            assert(acc + Seq::<Seq<char>>::empty() =~= acc);
        }
        let r6 = read_u8(b, cur);
        if r6.is_none() {
            return None;
        }
        let (ye, i7) = r6.unwrap();
        let r7 = read_u8(b, i7);
        if r7.is_none() {
            return None;
        }
        let (pc, i8) = r7.unwrap();
        let r8 = read_u8(b, i8);
        if r8.is_none() {
            return None;
        }
        let (cs, i9) = r8.unwrap();
        if id_bytes.len() > MAX_IDENTITY_LEN {
            return None;
        }
        match Identity::from_bytes(id_bytes) {
            Some(id) => Some(
                UserProfile {
                    id,
                    name,
                    skill,
                    description,
                    achievements,
                    stats: UserStats {
                        years_experience: ye,
                        projects_completed: pc,
                        client_satisfaction: cs,
                    },
                },
            ),
            None => None,
        }
    }

    fn note_wf(&self) {
        note_profile_texts_fit(self);
        proof {
            use_type_invariant(&self.id);
        }
    }
}

/// The registry's durable state: one profile per identity.  Its two
/// partitions are bound through the process's one backing store, which the
/// caller owns and shares with every service of the process.
pub struct State {
    pub(crate) user_data: Partition,
    pub(crate) token_data: Partition,
}

impl View for State {
    type V = Map<Seq<u8>, UserProfileV>;

    closed spec fn view(&self) -> Map<Seq<u8>, UserProfileV> {
        typed_view::<UserProfile>(self.user_data)
    }
}

/// The profile a caller ends up owning: the submitted fields under the
/// caller's own identity, whatever id the submission carried.
pub open spec fn owned_profile(p: UserProfileV, caller: Seq<u8>) -> UserProfileV {
    UserProfileV { id: caller, ..p }
}

/// Establishes that a profile's texts fit the encoding's length prefixes.
fn note_profile_texts_fit(p: &UserProfile)
    ensures
        encode_utf8(p@.name).len() <= u64::MAX,
        encode_utf8(p@.skill).len() <= u64::MAX,
        encode_utf8(p@.description).len() <= u64::MAX,
        p@.achievements.len() <= u64::MAX,
        forall|q: int|
            0 <= q < p@.achievements.len() ==> encode_utf8(#[trigger] p@.achievements[q]).len()
                <= u64::MAX,
{
    note_text_fits(&p.name);
    note_text_fits(&p.skill);
    note_text_fits(&p.description);
    let n = p.achievements.len();
    proof {
        assert(usize::MAX <= u64::MAX);
    }
    let mut k: usize = 0;
    while k < n
        invariant
            n == p.achievements@.len(),
            0 <= k <= n,
            forall|q: int|
                0 <= q < k ==> encode_utf8((#[trigger] p.achievements@[q])@).len() <= u64::MAX,
        decreases n - k,
    {
        note_text_fits(&p.achievements[k]);
        k += 1;
    }
    proof {
        assert forall|q: int| 0 <= q < p@.achievements.len() implies encode_utf8(
            #[trigger] p@.achievements[q],
        ).len() <= u64::MAX by {
            assert(p@.achievements[q] == p.achievements@[q]@);
        }
    }
}

impl State {
    /// The registry's internal invariant.
    pub closed spec fn inv(&self) -> bool {
        typed_inv::<UserProfile>(self.user_data)
    }

    /// Builds the registry over the process's backing store: its two
    /// partitions bound fresh to their fixed tags, with nothing in them.
    pub fn init(backing: &mut Backing) -> (r: State)
        requires
            !backing_used(*old(backing)).contains(USER_DATA_TAG),
            !backing_used(*old(backing)).contains(TOKEN_DATA_TAG),
        ensures
            backing_used(*final(backing)) == backing_used(*old(backing)).insert(
                USER_DATA_TAG,
            ).insert(TOKEN_DATA_TAG),
            r.inv(),
            r@ == Map::<Seq<u8>, UserProfileV>::empty(),
    {
        let user_data = open_partition(backing, USER_DATA_TAG);
        let token_data = open_partition(backing, TOKEN_DATA_TAG);
        let r = State { user_data, token_data };
        proof {
            assert(r@ =~= Map::<Seq<u8>, UserProfileV>::empty());
        }
        r
    }

    /// Re-attaches the registry persisted in the process's backing store,
    /// revalidating every stored profile entry by entry; yields nothing
    /// when the store does not hold this format.
    pub fn reopen(backing: &mut Backing) -> (r: Option<State>)
        requires
            !backing_used(*old(backing)).contains(USER_DATA_TAG),
            !backing_used(*old(backing)).contains(TOKEN_DATA_TAG),
        ensures
            backing_used(*final(backing)) == backing_used(*old(backing)).insert(
                USER_DATA_TAG,
            ).insert(TOKEN_DATA_TAG),
            r matches Some(st) ==> st.inv(),
    {
        let user_data = reopen_partition(backing, USER_DATA_TAG);
        let token_data = reopen_partition(backing, TOKEN_DATA_TAG);
        if !typed_revalidate::<UserProfile>(&user_data) {
            return None;
        }
        Some(State { user_data, token_data })
    }

    /// The caller's profile, if one exists.
    pub fn get_user(&self, caller: &Identity) -> (r: Result<UserProfile, Error>)
        requires
            self.inv(),
        ensures
            match r {
                Ok(v) => self@.dom().contains(caller@) && v@ == self@[caller@],
                Err(e) => (e matches Error::NotFound) && !self@.dom().contains(caller@),
            },
    {
        match typed_get::<UserProfile>(&self.user_data, caller) {
            Some(v) => Ok(v),
            None => Err(Error::NotFound),
        }
    }

    /// Any identity's profile, if one exists.
    pub fn get_user_by_id(&self, id: &Identity) -> (r: Result<UserProfile, Error>)
        requires
            self.inv(),
        ensures
            match r {
                Ok(v) => self@.dom().contains(id@) && v@ == self@[id@],
                Err(e) => (e matches Error::NotFound) && !self@.dom().contains(id@),
            },
    {
        match typed_get::<UserProfile>(&self.user_data, id) {
            Some(v) => Ok(v),
            None => Err(Error::NotFound),
        }
    }

    /// Every stored profile: the values of a faithful listing of the map --
    /// one for each registered identity, and nothing else.
    pub fn get_user_list(&self) -> (r: Vec<UserProfile>)
        requires
            self.inv(),
        ensures
            exists|ps: Seq<(Identity, UserProfile)>|
                #[trigger] entries_match::<UserProfile>(self@, ps) && r@ == ps.map_values(
                    |p: (Identity, UserProfile)| p.1,
                ),
    {
        let pairs = typed_entries::<UserProfile>(&self.user_data);
        let ghost pv = pairs@;
        let mut out: Vec<UserProfile> = Vec::new();
        let mut pairs = pairs;
        while pairs.len() > 0
            invariant
                pairs@ == pv.subrange(out@.len() as int, pv.len() as int),
                out@.len() <= pv.len(),
                forall|j: int| 0 <= j < out@.len() ==> #[trigger] out@[j] == pv[j].1,
            decreases pairs@.len(),
        {
            let ghost done = out@.len() as int;
            let p = pairs.remove(0);
            proof {
                assert(pv.subrange(done, pv.len() as int)[0] == pv[done]);
            }
            out.push(p.1);
            proof {
                assert(pairs@ =~= pv.subrange(out@.len() as int, pv.len() as int));
            }
        }
        proof {
            assert(entries_match::<UserProfile>(self@, pv));
            assert(out@ =~= pv.map_values(|p: (Identity, UserProfile)| p.1));
        }
        out
    }

    /// Files the caller's profile once: a second submission is refused and
    /// changes nothing.  The stored profile carries the caller's identity,
    /// whatever id the submission held.
    pub fn create_user(&mut self, caller: &Identity, user_profile: UserProfile) -> (r: Result<
        (),
        Error,
    >)
        requires
            old(self).inv(),
        ensures
            final(self).inv(),
            match r {
                Ok(u) => !old(self)@.dom().contains(caller@) && final(self)@ == old(self)@.insert(
                    caller@,
                    owned_profile(user_profile@, caller@),
                ),
                Err(e) => (e matches Error::ValidationError(_)) && old(self)@.dom().contains(
                    caller@,
                ) && final(self)@ == old(self)@,
            },
    {
        if typed_contains::<UserProfile>(&self.user_data, caller) {
            return Err(Error::ValidationError("User already exists".to_owned()));
        }
        let ghost submitted = user_profile@;
        let stored = UserProfile {
            id: caller.clone(),
            name: user_profile.name,
            skill: user_profile.skill,
            description: user_profile.description,
            achievements: user_profile.achievements,
            stats: user_profile.stats,
        };
        note_profile_texts_fit(&stored);
        proof {
            use_type_invariant(caller);
            assert(stored@ =~= owned_profile(submitted, caller@));
        }
        typed_insert::<UserProfile>(&mut self.user_data, caller, &stored);
        proof {
            assert(self@ =~= old(self)@.insert(caller@, owned_profile(submitted, caller@)));
        }
        Ok(())
    }

    /// Replaces the caller's existing profile; an unknown caller is
    /// refused.  The stored profile carries the caller's identity.
    pub fn update_user(&mut self, caller: &Identity, user_profile: UserProfile) -> (r: Result<
        (),
        Error,
    >)
        requires
            old(self).inv(),
        ensures
            final(self).inv(),
            match r {
                Ok(u) => old(self)@.dom().contains(caller@) && final(self)@ == old(self)@.insert(
                    caller@,
                    owned_profile(user_profile@, caller@),
                ),
                Err(e) => (e matches Error::NotFound) && !old(self)@.dom().contains(caller@)
                    && final(self)@ == old(self)@,
            },
    {
        if !typed_contains::<UserProfile>(&self.user_data, caller) {
            return Err(Error::NotFound);
        }
        let ghost submitted = user_profile@;
        let stored = UserProfile {
            id: caller.clone(),
            name: user_profile.name,
            skill: user_profile.skill,
            description: user_profile.description,
            achievements: user_profile.achievements,
            stats: user_profile.stats,
        };
        note_profile_texts_fit(&stored);
        proof {
            use_type_invariant(caller);
            assert(stored@ =~= owned_profile(submitted, caller@));
        }
        typed_insert::<UserProfile>(&mut self.user_data, caller, &stored);
        proof {
            assert(self@ =~= old(self)@.insert(caller@, owned_profile(submitted, caller@)));
        }
        Ok(())
    }
}

} // verus!
