use vstd::prelude::*;
use crate::error::StorageError;

verus! {

/// A user's identity record; the digest never leaves the library in a response.
#[derive(Debug)]
pub struct User {
    pub id: u128,
    pub email: String,
    pub password_hash: String,
    pub created_at: i64,
    pub updated_at: i64,
}

impl User {
    /// A field-for-field copy.
    pub fn copy(&self) -> (r: User)
        ensures
            r == *self,
    {
        User {
            id: self.id,
            email: self.email.clone(),
            password_hash: self.password_hash.clone(),
            created_at: self.created_at,
            updated_at: self.updated_at,
        }
    }
}

pub open spec fn pow16(n: nat) -> nat
    decreases n,
{
    if n == 0 {
        1
    } else {
        16 * pow16((n - 1) as nat)
    }
}

/// The lower-case hexadecimal digit for `n < 16`.
pub open spec fn hex_digit(n: nat) -> char {
    seq!['0', '1', '2', '3', '4', '5', '6', '7', '8', '9', 'a', 'b', 'c', 'd', 'e', 'f'][n as int]
}

/// The `k`-th of the 32 hexadecimal digits of `id`, most significant first.
pub open spec fn id_digit(id: u128, k: int) -> char {
    hex_digit(((id as nat) / pow16((31 - k) as nat)) % 16)
}

/// The digits `from..to` of `id`.
pub open spec fn id_digits(id: u128, from: int, to: int) -> Seq<char> {
    Seq::new((to - from) as nat, |i: int| id_digit(id, from + i))
}

/// The text form of an identifier: 32 lower-case hexadecimal digits, with
/// hyphens after the 8th, 12th, 16th and 20th.
pub open spec fn uuid_text(id: u128) -> Seq<char> {
    id_digits(id, 0, 8) + seq!['-'] + id_digits(id, 8, 12) + seq!['-'] + id_digits(id, 12, 16)
        + seq!['-'] + id_digits(id, 16, 20) + seq!['-'] + id_digits(id, 20, 32)
}

/// Relies on uuid's `Display` for `Uuid::from_u128(id)`: the hyphenated
/// lower-case form of the big-endian value.
#[verifier::external_body]
pub(crate) fn id_text(id: u128) -> (r: String)
    ensures
        r@ == uuid_text(id),
{
    uuid::Uuid::from_u128(id).to_string()
}

/// Relies on uuid::Uuid::new_v4: a random identifier.
#[verifier::external_body]
pub(crate) fn fresh_id() -> (r: u128) {
    uuid::Uuid::new_v4().as_u128()
}

/// Whether some row has this email.
pub open spec fn has_email(rows: Seq<User>, email: Seq<char>) -> bool {
    exists|i: int| 0 <= i < rows.len() && (#[trigger] rows[i]).email@ == email
}

/// Whether some row has this identifier.
pub open spec fn has_id(rows: Seq<User>, id: u128) -> bool {
    exists|i: int| 0 <= i < rows.len() && (#[trigger] rows[i]).id == id
}

/// No two rows share an identifier.
pub open spec fn user_ids_unique(rows: Seq<User>) -> bool {
    forall|i: int, j: int|
        0 <= i < rows.len() && 0 <= j < rows.len() && i != j ==> (#[trigger] rows[i]).id != (#[trigger] rows[j]).id
}

/// No two rows share an email.
pub open spec fn emails_unique(rows: Seq<User>) -> bool {
    forall|i: int, j: int|
        0 <= i < rows.len() && 0 <= j < rows.len() && i != j ==> (#[trigger] rows[i]).email@ != (#[trigger] rows[j]).email@
}

/// The row holding this email, where there is one.
pub open spec fn row_with_email(rows: Seq<User>, email: Seq<char>) -> User
    recommends
        has_email(rows, email),
{
    rows[choose|i: int| 0 <= i < rows.len() && (#[trigger] rows[i]).email@ == email]
}

/// The user rows, with the storage-level constraints that identifiers and
/// emails are unique.
pub struct UserTable {
    rows: Vec<User>,
}

impl UserTable {
    pub closed spec fn rows(&self) -> Seq<User> {
        self.rows@
    }

    pub open spec fn wf(&self) -> bool {
        emails_unique(self.rows()) && user_ids_unique(self.rows())
    }

    pub fn new() -> (r: UserTable)
        ensures
            r.wf(),
            r.rows() == Seq::<User>::empty(),
    {
        UserTable { rows: Vec::new() }
    }

    pub fn len(&self) -> (r: usize)
        ensures
            r == self.rows().len(),
    {
        self.rows.len()
    }

    /// Point lookup by email; absence is `None`.
    pub fn find_by_email(&self, email: &str) -> (r: Option<User>)
        requires
            self.wf(),
        ensures
            r is None <==> !has_email(self.rows(), email@),
            r matches Some(u) ==> u == row_with_email(self.rows(), email@),
    {
        let wanted = email.to_owned();
        let mut i: usize = 0;
        while i < self.rows.len()
            invariant
                0 <= i <= self.rows@.len(),
                wanted@ == email@,
                self.wf(),
                forall|k: int| 0 <= k < i ==> (#[trigger] self.rows@[k]).email@ != email@,
            decreases self.rows@.len() - i,
        {
            if self.rows[i].email == wanted {
                proof {
                    let j = choose|j: int| 0 <= j < self.rows@.len() && (#[trigger] self.rows@[j]).email@ == email@;
                    assert(self.rows@[i as int].email@ == email@);
                    assert(self.rows() == self.rows@);
                    assert(self.rows()[i as int].email@ == self.rows()[j].email@);
                    assert(emails_unique(self.rows()));
                    if i as int != j {
                        assert(self.rows()[i as int].email@ != self.rows()[j].email@);
                    }
                }
                return Some(self.rows[i].copy());
            }
            i += 1;
        }
        None
    }

    /// Point lookup by identifier; absence is `None`.
    pub fn find_by_id(&self, id: u128) -> (r: Option<User>)
        ensures
            r is None <==> forall|k: int| 0 <= k < self.rows().len() ==> (#[trigger] self.rows()[k]).id != id,
            r matches Some(u) ==> u.id == id && self.rows().contains(u),
    {
        let mut i: usize = 0;
        while i < self.rows.len()
            invariant
                0 <= i <= self.rows@.len(),
                forall|k: int| 0 <= k < i ==> (#[trigger] self.rows@[k]).id != id,
            decreases self.rows@.len() - i,
        {
            if self.rows[i].id == id {
                let u = self.rows[i].copy();
                assert(self.rows@[i as int] == u);
                assert(self.rows() == self.rows@);
                assert(self.rows()[i as int].id == id);
                return Some(u);
            }
            i += 1;
        }
        None
    }

    /// Inserts a row; a row whose email or identifier is already present is
    /// refused with `UniqueViolation` and the table is left as it was.
    pub fn insert(&mut self, user: User) -> (r: Result<(), StorageError>)
        requires
            old(self).wf(),
        ensures
            final(self).wf(),
            has_email(old(self).rows(), user.email@) || has_id(old(self).rows(), user.id)
                ==> r == Err::<(), StorageError>(StorageError::UniqueViolation) && final(self).rows() == old(self).rows(),
            !has_email(old(self).rows(), user.email@) && !has_id(old(self).rows(), user.id)
                ==> r is Ok && final(self).rows() == old(self).rows().push(user),
    {
        let found = self.find_by_email(user.email.as_str());
        if found.is_some() {
            return Err(StorageError::UniqueViolation);
        }
        let taken = self.find_by_id(user.id);
        if taken.is_some() {
            return Err(StorageError::UniqueViolation);
        }
        assert(!has_id(self.rows(), user.id)) by {
            if has_id(self.rows(), user.id) {
                let k = choose|k: int| 0 <= k < self.rows().len() && (#[trigger] self.rows()[k]).id == user.id;
                assert(self.rows()[k].id == user.id);
            }
        }
        self.rows.push(user);
        proof {
            let rows = self.rows@;
            let prev = old(self).rows@;
            assert forall|i: int, j: int|
                0 <= i < rows.len() && 0 <= j < rows.len() && i != j implies (#[trigger] rows[i]).email@ != (#[trigger] rows[j]).email@
                    && rows[i].id != rows[j].id by {
                if i < prev.len() {
                    assert(rows[i] == prev[i]);
                }
                if j < prev.len() {
                    assert(rows[j] == prev[j]);
                }
            }
        }
        Ok(())
    }

    /// Creates a user row with a new identifier, stamped at `now`.
    pub fn create(&mut self, email: &str, password_hash: &str, now: i64) -> (r: Result<User, StorageError>)
        requires
            old(self).wf(),
        ensures
            final(self).wf(),
            r matches Err(e) ==> e == StorageError::UniqueViolation && final(self).rows() == old(self).rows(),
            has_email(old(self).rows(), email@) ==> r is Err,
            !has_email(old(self).rows(), email@) && old(self).rows().len() == 0 ==> r is Ok,
            r matches Ok(u) ==> u.email@ == email@ && u.password_hash@ == password_hash@
                && u.created_at == now && u.updated_at == now && !has_id(old(self).rows(), u.id)
                && final(self).rows() == old(self).rows().push(u),
    {
        let user = User {
            id: fresh_id(),
            email: email.to_string(),
            password_hash: password_hash.to_string(),
            created_at: now,
            updated_at: now,
        };
        let kept = user.copy();
        match self.insert(user) {
            Ok(()) => Ok(kept),
            Err(e) => Err(e),
        }
    }
}

/// Two registrations of one email, both of which found no row holding it,
/// never leave two rows: once the first row is stored, the email is present, so
/// the second insert is refused as a uniqueness violation (which registration
/// reports as a conflict), and exactly one row holds the email.
pub proof fn lemma_second_insert_conflicts(rows: Seq<User>, first: User, second: User)
    requires
        emails_unique(rows),
        !has_email(rows, first.email@),
        second.email@ == first.email@,
    ensures
        has_email(rows.push(first), second.email@),
        emails_unique(rows.push(first)),
        forall|i: int| 0 <= i < rows.len() + 1 && (#[trigger] rows.push(first)[i]).email@ == second.email@
            ==> i == rows.len(),
{
    let r2 = rows.push(first);
    assert(r2[rows.len() as int] == first);
    assert forall|i: int| 0 <= i < rows.len() + 1 && (#[trigger] r2[i]).email@ == second.email@ implies i == rows.len() by {
        if i < rows.len() {
            assert(r2[i] == rows[i]);
        }
    }
    assert forall|i: int, j: int|
        0 <= i < r2.len() && 0 <= j < r2.len() && i != j implies (#[trigger] r2[i]).email@ != (#[trigger] r2[j]).email@ by {
        if i < rows.len() {
            assert(r2[i] == rows[i]);
        }
        if j < rows.len() {
            assert(r2[j] == rows[j]);
        }
    }
}

} // verus!
