//! The user store: records with unique user ids and unique email addresses
//! (across active and inactive users alike), soft-deleted via an active
//! flag.  The password digest never leaves the store.

use vstd::prelude::*;
use vstd::string::*;
use crate::errors::AppError;
use crate::hasher::{digest_matches, verify_password};

verus! {

/// A stored user record.
pub struct UserRecord {
    pub user_id: String,
    pub email: String,
    pub display_name: String,
    pub password_digest: String,
    pub created_at: u64,
    pub updated_at: u64,
    pub active: bool,
}

/// The mathematical value of a user record.
pub ghost struct UserData {
    pub user_id: Seq<char>,
    pub email: Seq<char>,
    pub display_name: Seq<char>,
    pub password_digest: Seq<char>,
    pub created_at: u64,
    pub updated_at: u64,
    pub active: bool,
}

impl View for UserRecord {
    type V = UserData;

    open spec fn view(&self) -> UserData {
        UserData {
            user_id: self.user_id@,
            email: self.email@,
            display_name: self.display_name@,
            password_digest: self.password_digest@,
            created_at: self.created_at,
            updated_at: self.updated_at,
            active: self.active,
        }
    }
}

/// The public view of a user: everything but the password digest.
pub struct UserResponse {
    pub user_id: String,
    pub email: String,
    pub display_name: String,
    pub created_at: u64,
    pub updated_at: u64,
    pub is_active: bool,
}

/// The public view matches a stored record.
pub open spec fn response_matches(r: UserResponse, u: UserData) -> bool {
    &&& r.user_id@ == u.user_id
    &&& r.email@ == u.email
    &&& r.display_name@ == u.display_name
    &&& r.created_at == u.created_at
    &&& r.updated_at == u.updated_at
    &&& r.is_active == u.active
}

/// The record with the given user id, scanning from the front.
pub open spec fn find_by_id(s: Seq<UserRecord>, id: Seq<char>) -> Option<UserData>
    decreases s.len(),
{
    if s.len() == 0 {
        None
    } else if s[0].user_id@ == id {
        Some(s[0]@)
    } else {
        find_by_id(s.skip(1), id)
    }
}

/// The record with the given email, scanning from the front.
pub open spec fn find_by_email(s: Seq<UserRecord>, em: Seq<char>) -> Option<UserData>
    decreases s.len(),
{
    if s.len() == 0 {
        None
    } else if s[0].email@ == em {
        Some(s[0]@)
    } else {
        find_by_email(s.skip(1), em)
    }
}

proof fn lemma_id_first(s: Seq<UserRecord>, id: Seq<char>, i: int)
    requires
        0 <= i < s.len(),
        s[i].user_id@ == id,
        forall|j: int| 0 <= j < i ==> #[trigger] s[j].user_id@ != id,
    ensures
        find_by_id(s, id) == Some(s[i]@),
    decreases i,
{
    if i > 0 {
        assert forall|j: int| 0 <= j < i - 1 implies #[trigger] s.skip(1)[j].user_id@ != id by {
            assert(s.skip(1)[j] == s[j + 1]);
        }
        assert(s.skip(1)[i - 1] == s[i]);
        lemma_id_first(s.skip(1), id, i - 1);
    }
}

proof fn lemma_id_absent(s: Seq<UserRecord>, id: Seq<char>)
    requires
        forall|j: int| 0 <= j < s.len() ==> #[trigger] s[j].user_id@ != id,
    ensures
        find_by_id(s, id) is None,
    decreases s.len(),
{
    if s.len() > 0 {
        assert forall|j: int| 0 <= j < s.len() - 1 implies #[trigger] s.skip(1)[j].user_id@
            != id by {
            assert(s.skip(1)[j] == s[j + 1]);
        }
        lemma_id_absent(s.skip(1), id);
    }
}

proof fn lemma_email_first(s: Seq<UserRecord>, em: Seq<char>, i: int)
    requires
        0 <= i < s.len(),
        s[i].email@ == em,
        forall|j: int| 0 <= j < i ==> #[trigger] s[j].email@ != em,
    ensures
        find_by_email(s, em) == Some(s[i]@),
    decreases i,
{
    if i > 0 {
        assert forall|j: int| 0 <= j < i - 1 implies #[trigger] s.skip(1)[j].email@ != em by {
            assert(s.skip(1)[j] == s[j + 1]);
        }
        assert(s.skip(1)[i - 1] == s[i]);
        lemma_email_first(s.skip(1), em, i - 1);
    }
}

proof fn lemma_email_absent(s: Seq<UserRecord>, em: Seq<char>)
    requires
        forall|j: int| 0 <= j < s.len() ==> #[trigger] s[j].email@ != em,
    ensures
        find_by_email(s, em) is None,
    decreases s.len(),
{
    if s.len() > 0 {
        assert forall|j: int| 0 <= j < s.len() - 1 implies #[trigger] s.skip(1)[j].email@
            != em by {
            assert(s.skip(1)[j] == s[j + 1]);
        }
        lemma_email_absent(s.skip(1), em);
    }
}

proof fn lemma_id_update(s: Seq<UserRecord>, i: int, e: UserRecord)
    requires
        0 <= i < s.len(),
        forall|j: int|
            0 <= j < s.len() && j != i ==> #[trigger] s[j].user_id@ != s[i].user_id@
                && s[j].user_id@ != e.user_id@,
    ensures
        find_by_id(s.update(i, e), e.user_id@) == Some(e@),
        e.user_id@ != s[i].user_id@ ==> find_by_id(s.update(i, e), s[i].user_id@) is None,
        forall|k: Seq<char>|
            k != s[i].user_id@ && k != e.user_id@ ==> #[trigger] find_by_id(s.update(i, e), k)
                == find_by_id(s, k),
    decreases i,
{
    let t = s.update(i, e);
    if i == 0 {
        assert(t[0] == e);
        assert(t.skip(1) =~= s.skip(1));
        assert forall|j: int| 0 <= j < s.skip(1).len() implies #[trigger] s.skip(1)[j].user_id@
            != e.user_id@ && s.skip(1)[j].user_id@ != s[0].user_id@ by {
            assert(s.skip(1)[j] == s[j + 1]);
        }
        lemma_id_absent(s.skip(1), e.user_id@);
        if e.user_id@ != s[0].user_id@ {
            lemma_id_absent(s.skip(1), s[0].user_id@);
        }
        assert forall|k: Seq<char>|
            k != s[i].user_id@ && k != e.user_id@ implies #[trigger] find_by_id(t, k)
                == find_by_id(s, k) by {
            assert(find_by_id(t, k) == find_by_id(t.skip(1), k));
        }
    } else {
        assert(t[0] == s[0]);
        assert(t.skip(1) =~= s.skip(1).update(i - 1, e));
        assert(s.skip(1)[i - 1] == s[i]);
        assert forall|j: int|
            0 <= j < s.skip(1).len() && j != i - 1 implies #[trigger] s.skip(1)[j].user_id@
                != s[i].user_id@ && s.skip(1)[j].user_id@ != e.user_id@ by {
            assert(s.skip(1)[j] == s[j + 1]);
        }
        lemma_id_update(s.skip(1), i - 1, e);
        assert(s[0].user_id@ != e.user_id@ && s[0].user_id@ != s[i].user_id@);
        assert(find_by_id(t, e.user_id@) == find_by_id(s.skip(1).update(i - 1, e), e.user_id@));
        if e.user_id@ != s[i].user_id@ {
            assert(find_by_id(t, s[i].user_id@) == find_by_id(
                s.skip(1).update(i - 1, e),
                s[i].user_id@,
            ));
        }
        assert forall|k: Seq<char>|
            k != s[i].user_id@ && k != e.user_id@ implies #[trigger] find_by_id(t, k)
                == find_by_id(s, k) by {
            if s[0].user_id@ != k {
                assert(find_by_id(s.skip(1).update(i - 1, e), k) == find_by_id(s.skip(1), k));
                assert(find_by_id(t, k) == find_by_id(t.skip(1), k));
            }
        }
    }
}

proof fn lemma_email_update(s: Seq<UserRecord>, i: int, e: UserRecord)
    requires
        0 <= i < s.len(),
        forall|j: int|
            0 <= j < s.len() && j != i ==> #[trigger] s[j].email@ != s[i].email@ && s[j].email@
                != e.email@,
    ensures
        find_by_email(s.update(i, e), e.email@) == Some(e@),
        e.email@ != s[i].email@ ==> find_by_email(s.update(i, e), s[i].email@) is None,
        forall|k: Seq<char>|
            k != s[i].email@ && k != e.email@ ==> #[trigger] find_by_email(s.update(i, e), k)
                == find_by_email(s, k),
    decreases i,
{
    let t = s.update(i, e);
    if i == 0 {
        assert(t[0] == e);
        assert(t.skip(1) =~= s.skip(1));
        assert forall|j: int| 0 <= j < s.skip(1).len() implies #[trigger] s.skip(1)[j].email@
            != e.email@ && s.skip(1)[j].email@ != s[0].email@ by {
            assert(s.skip(1)[j] == s[j + 1]);
        }
        lemma_email_absent(s.skip(1), e.email@);
        if e.email@ != s[0].email@ {
            lemma_email_absent(s.skip(1), s[0].email@);
        }
        assert forall|k: Seq<char>|
            k != s[i].email@ && k != e.email@ implies #[trigger] find_by_email(t, k)
                == find_by_email(s, k) by {
            assert(find_by_email(t, k) == find_by_email(t.skip(1), k));
        }
    } else {
        assert(t[0] == s[0]);
        assert(t.skip(1) =~= s.skip(1).update(i - 1, e));
        assert(s.skip(1)[i - 1] == s[i]);
        assert forall|j: int|
            0 <= j < s.skip(1).len() && j != i - 1 implies #[trigger] s.skip(1)[j].email@
                != s[i].email@ && s.skip(1)[j].email@ != e.email@ by {
            assert(s.skip(1)[j] == s[j + 1]);
        }
        lemma_email_update(s.skip(1), i - 1, e);
        assert(s[0].email@ != e.email@ && s[0].email@ != s[i].email@);
        assert(find_by_email(t, e.email@) == find_by_email(s.skip(1).update(i - 1, e), e.email@));
        if e.email@ != s[i].email@ {
            assert(find_by_email(t, s[i].email@) == find_by_email(
                s.skip(1).update(i - 1, e),
                s[i].email@,
            ));
        }
        assert forall|k: Seq<char>|
            k != s[i].email@ && k != e.email@ implies #[trigger] find_by_email(t, k)
                == find_by_email(s, k) by {
            if s[0].email@ != k {
                assert(find_by_email(s.skip(1).update(i - 1, e), k) == find_by_email(
                    s.skip(1),
                    k,
                ));
                assert(find_by_email(t, k) == find_by_email(t.skip(1), k));
            }
        }
    }
}

proof fn lemma_id_push(s: Seq<UserRecord>, e: UserRecord)
    requires
        forall|j: int| 0 <= j < s.len() ==> #[trigger] s[j].user_id@ != e.user_id@,
    ensures
        find_by_id(s.push(e), e.user_id@) == Some(e@),
        forall|k: Seq<char>|
            k != e.user_id@ ==> #[trigger] find_by_id(s.push(e), k) == find_by_id(s, k),
    decreases s.len(),
{
    let t = s.push(e);
    if s.len() == 0 {
        assert(t[0] == e);
        assert forall|k: Seq<char>| k != e.user_id@ implies #[trigger] find_by_id(t, k)
            == find_by_id(s, k) by {
            assert(t.skip(1) =~= Seq::<UserRecord>::empty());
            assert(find_by_id(t, k) == find_by_id(t.skip(1), k));
            assert(find_by_id(Seq::<UserRecord>::empty(), k) is None);
            assert(find_by_id(s, k) is None);
        }
    } else {
        assert(t[0] == s[0]);
        assert(t.skip(1) =~= s.skip(1).push(e));
        assert forall|j: int| 0 <= j < s.skip(1).len() implies #[trigger] s.skip(1)[j].user_id@
            != e.user_id@ by {
            assert(s.skip(1)[j] == s[j + 1]);
        }
        lemma_id_push(s.skip(1), e);
        assert(s[0].user_id@ != e.user_id@);
        assert(find_by_id(t, e.user_id@) == find_by_id(s.skip(1).push(e), e.user_id@));
        assert forall|k: Seq<char>| k != e.user_id@ implies #[trigger] find_by_id(t, k)
            == find_by_id(s, k) by {
            if s[0].user_id@ != k {
                assert(find_by_id(s.skip(1).push(e), k) == find_by_id(s.skip(1), k));
                assert(find_by_id(t, k) == find_by_id(t.skip(1), k));
            }
        }
    }
}

proof fn lemma_email_push(s: Seq<UserRecord>, e: UserRecord)
    requires
        forall|j: int| 0 <= j < s.len() ==> #[trigger] s[j].email@ != e.email@,
    ensures
        find_by_email(s.push(e), e.email@) == Some(e@),
        forall|k: Seq<char>|
            k != e.email@ ==> #[trigger] find_by_email(s.push(e), k) == find_by_email(s, k),
    decreases s.len(),
{
    let t = s.push(e);
    if s.len() == 0 {
        assert(t[0] == e);
        assert forall|k: Seq<char>| k != e.email@ implies #[trigger] find_by_email(t, k)
            == find_by_email(s, k) by {
            assert(t.skip(1) =~= Seq::<UserRecord>::empty());
            assert(find_by_email(t, k) == find_by_email(t.skip(1), k));
            assert(find_by_email(Seq::<UserRecord>::empty(), k) is None);
            assert(find_by_email(s, k) is None);
        }
    } else {
        assert(t[0] == s[0]);
        assert(t.skip(1) =~= s.skip(1).push(e));
        assert forall|j: int| 0 <= j < s.skip(1).len() implies #[trigger] s.skip(1)[j].email@
            != e.email@ by {
            assert(s.skip(1)[j] == s[j + 1]);
        }
        lemma_email_push(s.skip(1), e);
        assert(s[0].email@ != e.email@);
        assert(find_by_email(t, e.email@) == find_by_email(s.skip(1).push(e), e.email@));
        assert forall|k: Seq<char>| k != e.email@ implies #[trigger] find_by_email(t, k)
            == find_by_email(s, k) by {
            if s[0].email@ != k {
                assert(find_by_email(s.skip(1).push(e), k) == find_by_email(s.skip(1), k));
                assert(find_by_email(t, k) == find_by_email(t.skip(1), k));
            }
        }
    }
}


proof fn lemma_email_some_index(s: Seq<UserRecord>, em: Seq<char>)
    requires
        find_by_email(s, em) is Some,
    ensures
        exists|i: int|
            0 <= i < s.len() && #[trigger] s[i].email@ == em && s[i]@ == find_by_email(
                s,
                em,
            )->Some_0,
    decreases s.len(),
{
    if s.len() > 0 && s[0].email@ != em {
        lemma_email_some_index(s.skip(1), em);
        let i = choose|i: int|
            0 <= i < s.skip(1).len() && #[trigger] s.skip(1)[i].email@ == em && s.skip(1)[i]@
                == find_by_email(s.skip(1), em)->Some_0;
        assert(s[i + 1] == s.skip(1)[i]);
    }
}


proof fn lemma_id_found_key(s: Seq<UserRecord>, id: Seq<char>)
    requires
        find_by_id(s, id) is Some,
    ensures
        find_by_id(s, id)->Some_0.user_id == id,
    decreases s.len(),
{
    if s.len() > 0 && s[0].user_id@ != id {
        lemma_id_found_key(s.skip(1), id);
    }
}

proof fn lemma_email_found_key(s: Seq<UserRecord>, em: Seq<char>)
    requires
        find_by_email(s, em) is Some,
    ensures
        find_by_email(s, em)->Some_0.email == em,
    decreases s.len(),
{
    if s.len() > 0 && s[0].email@ != em {
        lemma_email_found_key(s.skip(1), em);
    }
}

/// Clones a string, preserving its characters.
fn clone_str(s: &String) -> (r: String)
    ensures
        r@ == s@,
{
    s.as_str().to_owned()
}

/// The in-memory user store.
pub struct UserStore {
    users: Vec<UserRecord>,
}

impl UserStore {
    /// The stored records.
    pub closed spec fn records(&self) -> Seq<UserRecord> {
        self.users@
    }

    /// The record with the given user id.
    pub open spec fn spec_by_id(&self, id: Seq<char>) -> Option<UserData> {
        find_by_id(self.records(), id)
    }

    /// The record with the given email.
    pub open spec fn spec_by_email(&self, em: Seq<char>) -> Option<UserData> {
        find_by_email(self.records(), em)
    }

    /// Email addresses are unique across all records, active and inactive,
    /// and so are user ids.
    pub closed spec fn wf(&self) -> bool {
        forall|p: int, q: int|
            0 <= p < q < self.users@.len() ==> #[trigger] self.users@[p].user_id@
                != #[trigger] self.users@[q].user_id@ && self.users@[p].email@
                != self.users@[q].email@
    }

    /// A record found by email carries that email; one found by id carries
    /// that id.
    pub proof fn lemma_found_keys(&self, id: Seq<char>, em: Seq<char>)
        ensures
            self.spec_by_id(id) is Some ==> self.spec_by_id(id)->Some_0.user_id == id,
            self.spec_by_email(em) is Some ==> self.spec_by_email(em)->Some_0.email == em,
    {
        if self.spec_by_id(id) is Some {
            lemma_id_found_key(self.users@, id);
        }
        if self.spec_by_email(em) is Some {
            lemma_email_found_key(self.users@, em);
        }
    }

    /// A record found by email is the same record its id finds.
    pub proof fn lemma_email_then_id(&self, em: Seq<char>)
        requires
            self.wf(),
            self.spec_by_email(em) is Some,
        ensures
            self.spec_by_id(self.spec_by_email(em)->Some_0.user_id) == self.spec_by_email(em),
    {
        lemma_email_some_index(self.users@, em);
        let i = choose|i: int|
            0 <= i < self.users@.len() && #[trigger] self.users@[i].email@ == em
                && self.users@[i]@ == find_by_email(self.users@, em)->Some_0;
        assert forall|j: int| 0 <= j < i implies #[trigger] self.users@[j].user_id@
            != self.users@[i].user_id@ by {
            self.lemma_wf_at(i, j);
        }
        lemma_id_first(self.users@, self.users@[i].user_id@, i);
    }

    /// Distinctness of any two records' keys, in both index orders.
    proof fn lemma_wf_at(&self, i: int, j: int)
        requires
            self.wf(),
            0 <= i < self.records().len(),
            0 <= j < self.records().len(),
            i != j,
        ensures
            self.records()[i].user_id@ != self.records()[j].user_id@,
            self.records()[i].email@ != self.records()[j].email@,
    {
        if i < j {
            assert(self.users@[i].user_id@ != self.users@[j].user_id@ && self.users@[i].email@
                != self.users@[j].email@);
        } else {
            assert(self.users@[j].user_id@ != self.users@[i].user_id@ && self.users@[j].email@
                != self.users@[i].email@);
        }
    }

    /// Creates an empty store.
    pub fn new() -> (r: Self)
        ensures
            r.wf(),
            forall|id: Seq<char>| #[trigger] r.spec_by_id(id) is None,
            forall|em: Seq<char>| #[trigger] r.spec_by_email(em) is None,
    {
        UserStore { users: Vec::new() }
    }

    fn index_by_id(&self, user_id: &str) -> (r: Option<usize>)
        ensures
            r matches Some(i) ==> i < self.records().len() && self.records()[i as int].user_id@
                == user_id@ && self.spec_by_id(user_id@) == Some(self.records()[i as int]@),
            r is None ==> self.spec_by_id(user_id@) is None && forall|j: int|
                0 <= j < self.records().len() ==> #[trigger] self.records()[j].user_id@
                    != user_id@,
    {
        let key: String = user_id.to_owned();
        let n = self.users.len();
        let mut i: usize = 0;
        while i < n
            invariant
                i <= n == self.users@.len(),
                key@ == user_id@,
                forall|j: int| 0 <= j < i ==> #[trigger] self.users@[j].user_id@ != user_id@,
            decreases n - i,
        {
            if self.users[i].user_id == key {
                proof {
                    lemma_id_first(self.users@, user_id@, i as int);
                }
                return Some(i);
            }
            i += 1;
        }
        proof {
            lemma_id_absent(self.users@, user_id@);
        }
        None
    }

    fn index_by_email(&self, email: &str) -> (r: Option<usize>)
        ensures
            r matches Some(i) ==> i < self.records().len() && self.records()[i as int].email@
                == email@ && self.spec_by_email(email@) == Some(self.records()[i as int]@),
            r is None ==> self.spec_by_email(email@) is None && forall|j: int|
                0 <= j < self.records().len() ==> #[trigger] self.records()[j].email@ != email@,
    {
        let key: String = email.to_owned();
        let n = self.users.len();
        let mut i: usize = 0;
        while i < n
            invariant
                i <= n == self.users@.len(),
                key@ == email@,
                forall|j: int| 0 <= j < i ==> #[trigger] self.users@[j].email@ != email@,
            decreases n - i,
        {
            if self.users[i].email == key {
                proof {
                    lemma_email_first(self.users@, email@, i as int);
                }
                return Some(i);
            }
            i += 1;
        }
        proof {
            lemma_email_absent(self.users@, email@);
        }
        None
    }

    fn response_at(&self, i: usize) -> (r: UserResponse)
        requires
            i < self.records().len(),
        ensures
            response_matches(r, self.records()[i as int]@),
    {
        let u = &self.users[i];
        UserResponse {
            user_id: clone_str(&u.user_id),
            email: clone_str(&u.email),
            display_name: clone_str(&u.display_name),
            created_at: u.created_at,
            updated_at: u.updated_at,
            is_active: u.active,
        }
    }

    /// Looks a user up by id.
    pub fn find_user_by_id(&self, user_id: &str) -> (r: Option<UserResponse>)
        ensures
            match self.spec_by_id(user_id@) {
                Some(u) => r matches Some(v) && response_matches(v, u),
                None => r is None,
            },
    {
        match self.index_by_id(user_id) {
            Some(i) => Some(self.response_at(i)),
            None => None,
        }
    }

    /// Looks a user up by email.
    pub fn find_user_by_email(&self, email: &str) -> (r: Option<UserResponse>)
        ensures
            match self.spec_by_email(email@) {
                Some(u) => r matches Some(v) && response_matches(v, u),
                None => r is None,
            },
    {
        match self.index_by_email(email) {
            Some(i) => Some(self.response_at(i)),
            None => None,
        }
    }

    /// Verifies a password against the digest stored for `email` without
    /// exposing the digest.
    pub fn check_password(&self, email: &str, password: &str) -> (r: bool)
        ensures
            r <==> (self.spec_by_email(email@) matches Some(u) && digest_matches(
                password@,
                u.password_digest,
            )),
    {
        match self.index_by_email(email) {
            Some(i) => verify_password(password, self.users[i].password_digest.as_str()),
            None => false,
        }
    }

    /// Verifies a password against the digest stored for a user id.
    pub fn check_password_by_id(&self, user_id: &str, password: &str) -> (r: bool)
        ensures
            r <==> (self.spec_by_id(user_id@) matches Some(u) && digest_matches(
                password@,
                u.password_digest,
            )),
    {
        match self.index_by_id(user_id) {
            Some(i) => verify_password(password, self.users[i].password_digest.as_str()),
            None => false,
        }
    }

    /// Creates a user with a fresh record.  Fails with a validation error
    /// if the email or the user id is already taken by any record, active
    /// or not; the email-uniqueness invariant is preserved.
    pub fn create_user(
        &mut self,
        user_id: String,
        email: String,
        display_name: Option<String>,
        password_digest: String,
        now: u64,
    ) -> (r: Result<UserResponse, AppError>)
        requires
            old(self).wf(),
        ensures
            final(self).wf(),
            (old(self).spec_by_email(email@) is Some || old(self).spec_by_id(user_id@) is Some)
                <==> r is Err,
            r matches Err(e) ==> (e is ValidationError && final(self).records() == old(
                self,
            ).records()),
            r matches Ok(v) ==> ({
                let u = UserData {
                    user_id: user_id@,
                    email: email@,
                    display_name: match display_name {
                        Some(d) => d@,
                        None => Seq::<char>::empty(),
                    },
                    password_digest: password_digest@,
                    created_at: now,
                    updated_at: now,
                    active: true,
                };
                &&& response_matches(v, u)
                &&& final(self).spec_by_id(user_id@) == Some(u)
                &&& final(self).spec_by_email(email@) == Some(u)
                &&& forall|k: Seq<char>|
                    k != user_id@ ==> #[trigger] final(self).spec_by_id(k) == old(
                        self,
                    ).spec_by_id(k)
                &&& forall|k: Seq<char>|
                    k != email@ ==> #[trigger] final(self).spec_by_email(k) == old(
                        self,
                    ).spec_by_email(k)
            }),
    {
        if let Some(_) = self.index_by_email(email.as_str()) {
            return Err(AppError::ValidationError("Email address is already in use".to_owned()));
        }
        if let Some(_) = self.index_by_id(user_id.as_str()) {
            return Err(AppError::ValidationError("User id is already in use".to_owned()));
        }
        let name = match display_name {
            Some(d) => d,
            None => String::new(),
        };
        let rec = UserRecord {
            user_id,
            email,
            display_name: name,
            password_digest,
            created_at: now,
            updated_at: now,
            active: true,
        };
        let resp = UserResponse {
            user_id: clone_str(&rec.user_id),
            email: clone_str(&rec.email),
            display_name: clone_str(&rec.display_name),
            created_at: rec.created_at,
            updated_at: rec.updated_at,
            is_active: rec.active,
        };
        proof {
            lemma_id_push(self.users@, rec);
            lemma_email_push(self.users@, rec);
        }
        let ghost s0 = self.users@;
        self.users.push(rec);
        proof {
            assert forall|p: int, q: int|
                0 <= p < q < self.users@.len() implies #[trigger] self.users@[p].user_id@
                    != #[trigger] self.users@[q].user_id@ && self.users@[p].email@
                    != self.users@[q].email@ by {
                if q < s0.len() {
                    assert(self.users@[p] == s0[p] && self.users@[q] == s0[q]);
                } else {
                    assert(self.users@[p] == s0[p]);
                }
            }
        }
        Ok(resp)
    }

    /// Updates the given fields of a user in place: `NotFound` if the id is
    /// unknown; a validation error if a changed email is taken by another
    /// record.  The record keeps its id and creation time; `updated_at`
    /// becomes `now`.
    pub fn update_user(
        &mut self,
        user_id: &str,
        email: Option<String>,
        display_name: Option<String>,
        password_digest: Option<String>,
        now: u64,
    ) -> (r: Result<UserResponse, AppError>)
        requires
            old(self).wf(),
        ensures
            final(self).wf(),
            old(self).spec_by_id(user_id@) is None ==> (r matches Err(e) && e is NotFound
                && final(self).records() == old(self).records()),
            r matches Ok(v) ==> ({
                let u0 = old(self).spec_by_id(user_id@)->Some_0;
                let u1 = UserData {
                    user_id: u0.user_id,
                    email: match email {
                        Some(ref em) => em@,
                        None => u0.email,
                    },
                    display_name: match display_name {
                        Some(ref d) => d@,
                        None => u0.display_name,
                    },
                    password_digest: match password_digest {
                        Some(ref p) => p@,
                        None => u0.password_digest,
                    },
                    created_at: u0.created_at,
                    updated_at: now,
                    active: u0.active,
                };
                &&& old(self).spec_by_id(user_id@) is Some
                &&& response_matches(v, u1)
                &&& final(self).spec_by_id(user_id@) == Some(u1)
                &&& final(self).spec_by_email(u1.email) == Some(u1)
                &&& forall|k: Seq<char>|
                    k != user_id@ ==> #[trigger] final(self).spec_by_id(k) == old(
                        self,
                    ).spec_by_id(k)
                &&& forall|k: Seq<char>|
                    k != u0.email && k != u1.email ==> #[trigger] final(self).spec_by_email(k)
                        == old(self).spec_by_email(k)
            }),
            r matches Err(e) ==> (e is NotFound || e is ValidationError),
            (r matches Err(e) && e is NotFound) ==> old(self).spec_by_id(user_id@) is None,
            r is Err ==> final(self).records() == old(self).records(),
            (r matches Err(e) && !(e is NotFound)) ==> (r matches Err(e2) && e2
                is ValidationError && final(self).records() == old(self).records() && (match email {
                Some(ref em) => old(self).spec_by_email(em@) matches Some(u) && u.user_id
                    != user_id@,
                None => false,
            })),
            (old(self).spec_by_id(user_id@) is Some && (match email {
                Some(ref em) => old(self).spec_by_email(em@) matches Some(u) && u.user_id
                    != user_id@,
                None => false,
            })) ==> (r matches Err(e) && e is ValidationError),
    {
        let i = match self.index_by_id(user_id) {
            Some(i) => i,
            None => {
                return Err(AppError::NotFound("User not found".to_owned()));
            },
        };
        // a changed email must not belong to any other record.
        let new_email = match email {
            Some(em) => {
                match self.index_by_email(em.as_str()) {
                    Some(j) => {
                        if j != i {
                            proof {
                                self.lemma_wf_at(i as int, j as int);
                            }
                            return Err(
                                AppError::ValidationError(
                                    "Email address is already in use".to_owned(),
                                ),
                            );
                        }
                    },
                    None => {},
                }
                em
            },
            None => clone_str(&self.users[i].email),
        };
        proof {
            assert forall|j: int|
                0 <= j < self.users@.len() && j != i implies #[trigger] self.users@[j].email@
                    != new_email@ by {
                self.lemma_wf_at(i as int, j);
            }
        }
        let old_rec = &self.users[i];
        let new_name = match display_name {
            Some(d) => d,
            None => clone_str(&old_rec.display_name),
        };
        let new_digest = match password_digest {
            Some(p) => p,
            None => clone_str(&old_rec.password_digest),
        };
        let rec = UserRecord {
            user_id: clone_str(&old_rec.user_id),
            email: new_email,
            display_name: new_name,
            password_digest: new_digest,
            created_at: old_rec.created_at,
            updated_at: now,
            active: old_rec.active,
        };
        let resp = UserResponse {
            user_id: clone_str(&rec.user_id),
            email: clone_str(&rec.email),
            display_name: clone_str(&rec.display_name),
            created_at: rec.created_at,
            updated_at: rec.updated_at,
            is_active: rec.active,
        };
        proof {
            assert forall|j: int|
                0 <= j < self.users@.len() && j != i implies #[trigger] self.users@[j].user_id@
                    != self.users@[i as int].user_id@ && self.users@[j].user_id@
                    != rec.user_id@ by {
                self.lemma_wf_at(i as int, j);
            }
            assert forall|j: int|
                0 <= j < self.users@.len() && j != i implies #[trigger] self.users@[j].email@
                    != self.users@[i as int].email@ && self.users@[j].email@ != rec.email@ by {
                self.lemma_wf_at(i as int, j);
            }
            lemma_id_update(self.users@, i as int, rec);
            lemma_email_update(self.users@, i as int, rec);
        }
        let ghost s0 = self.users@;
        self.users.set(i, rec);
        proof {
            assert forall|p: int, q: int|
                0 <= p < q < self.users@.len() implies #[trigger] self.users@[p].user_id@
                    != #[trigger] self.users@[q].user_id@ && self.users@[p].email@
                    != self.users@[q].email@ by {
                if p != i && q != i {
                    assert(self.users@[p] == s0[p] && self.users@[q] == s0[q]);
                } else if p == i {
                    assert(self.users@[q] == s0[q]);
                } else {
                    assert(self.users@[p] == s0[p]);
                }
            }
        }
        Ok(resp)
    }

    /// Replaces the password digest of a user.
    pub fn set_password(&mut self, user_id: &str, password_digest: String, now: u64) -> (r: Result<
        (),
        AppError,
    >)
        requires
            old(self).wf(),
        ensures
            final(self).wf(),
            old(self).spec_by_id(user_id@) is None <==> r is Err,
            r matches Err(e) ==> e is NotFound,
            r is Err ==> final(self).records() == old(self).records(),
            r is Ok ==> ({
                let u0 = old(self).spec_by_id(user_id@)->Some_0;
                let u1 = UserData {
                    password_digest: password_digest@,
                    updated_at: now,
                    ..u0
                };
                &&& final(self).spec_by_id(user_id@) == Some(u1)
                &&& final(self).spec_by_email(u0.email) == Some(u1)
                &&& forall|k: Seq<char>|
                    k != user_id@ ==> #[trigger] final(self).spec_by_id(k) == old(
                        self,
                    ).spec_by_id(k)
                &&& forall|k: Seq<char>|
                    k != u0.email ==> #[trigger] final(self).spec_by_email(k) == old(
                        self,
                    ).spec_by_email(k)
            }),
    {
        let i = match self.index_by_id(user_id) {
            Some(i) => i,
            None => {
                return Err(AppError::NotFound("User not found".to_owned()));
            },
        };
        let old_rec = &self.users[i];
        let rec = UserRecord {
            user_id: clone_str(&old_rec.user_id),
            email: clone_str(&old_rec.email),
            display_name: clone_str(&old_rec.display_name),
            password_digest,
            created_at: old_rec.created_at,
            updated_at: now,
            active: old_rec.active,
        };
        proof {
            assert forall|j: int|
                0 <= j < self.users@.len() && j != i implies #[trigger] self.users@[j].user_id@
                    != self.users@[i as int].user_id@ && self.users@[j].user_id@
                    != rec.user_id@ by {
                self.lemma_wf_at(i as int, j);
            }
            assert forall|j: int|
                0 <= j < self.users@.len() && j != i implies #[trigger] self.users@[j].email@
                    != self.users@[i as int].email@ && self.users@[j].email@ != rec.email@ by {
                self.lemma_wf_at(i as int, j);
            }
            lemma_id_update(self.users@, i as int, rec);
            lemma_email_update(self.users@, i as int, rec);
        }
        let ghost s0 = self.users@;
        self.users.set(i, rec);
        proof {
            assert forall|p: int, q: int|
                0 <= p < q < self.users@.len() implies #[trigger] self.users@[p].user_id@
                    != #[trigger] self.users@[q].user_id@ && self.users@[p].email@
                    != self.users@[q].email@ by {
                if p != i && q != i {
                    assert(self.users@[p] == s0[p] && self.users@[q] == s0[q]);
                } else if p == i {
                    assert(self.users@[q] == s0[q]);
                } else {
                    assert(self.users@[p] == s0[p]);
                }
            }
        }
        Ok(())
    }

    /// Soft-deletes a user: the record stays (its email stays reserved),
    /// with the active flag cleared.
    pub fn soft_delete(&mut self, user_id: &str, now: u64) -> (r: Result<(), AppError>)
        requires
            old(self).wf(),
        ensures
            final(self).wf(),
            old(self).spec_by_id(user_id@) is None <==> r is Err,
            r matches Err(e) ==> e is NotFound,
            r is Err ==> final(self).records() == old(self).records(),
            r is Ok ==> ({
                let u0 = old(self).spec_by_id(user_id@)->Some_0;
                let u1 = UserData { active: false, updated_at: now, ..u0 };
                &&& final(self).spec_by_id(user_id@) == Some(u1)
                &&& final(self).spec_by_email(u0.email) == Some(u1)
                &&& forall|k: Seq<char>|
                    k != user_id@ ==> #[trigger] final(self).spec_by_id(k) == old(
                        self,
                    ).spec_by_id(k)
                &&& forall|k: Seq<char>|
                    k != u0.email ==> #[trigger] final(self).spec_by_email(k) == old(
                        self,
                    ).spec_by_email(k)
            }),
    {
        let i = match self.index_by_id(user_id) {
            Some(i) => i,
            None => {
                return Err(AppError::NotFound("User not found".to_owned()));
            },
        };
        let old_rec = &self.users[i];
        let rec = UserRecord {
            user_id: clone_str(&old_rec.user_id),
            email: clone_str(&old_rec.email),
            display_name: clone_str(&old_rec.display_name),
            password_digest: clone_str(&old_rec.password_digest),
            created_at: old_rec.created_at,
            updated_at: now,
            active: false,
        };
        proof {
            assert forall|j: int|
                0 <= j < self.users@.len() && j != i implies #[trigger] self.users@[j].user_id@
                    != self.users@[i as int].user_id@ && self.users@[j].user_id@
                    != rec.user_id@ by {
                self.lemma_wf_at(i as int, j);
            }
            assert forall|j: int|
                0 <= j < self.users@.len() && j != i implies #[trigger] self.users@[j].email@
                    != self.users@[i as int].email@ && self.users@[j].email@ != rec.email@ by {
                self.lemma_wf_at(i as int, j);
            }
            lemma_id_update(self.users@, i as int, rec);
            lemma_email_update(self.users@, i as int, rec);
        }
        let ghost s0 = self.users@;
        self.users.set(i, rec);
        proof {
            assert forall|p: int, q: int|
                0 <= p < q < self.users@.len() implies #[trigger] self.users@[p].user_id@
                    != #[trigger] self.users@[q].user_id@ && self.users@[p].email@
                    != self.users@[q].email@ by {
                if p != i && q != i {
                    assert(self.users@[p] == s0[p] && self.users@[q] == s0[q]);
                } else if p == i {
                    assert(self.users@[q] == s0[q]);
                } else {
                    assert(self.users@[p] == s0[p]);
                }
            }
        }
        Ok(())
    }
}

} // verus!
