//! Model of the relational policy store: the per-address policy rows, the
//! mail table, and the audit log, together with the typed operations the
//! request handlers perform on them. The SQL layer outside the library
//! mirrors each operation; the handlers' reasoning about policy, quota and
//! idempotence is carried out here, over this model.

use vstd::prelude::*;

use crate::email::Email;
use crate::storage;
use crate::text;

verus! {

/// Severity of an audit-log row.
#[derive(Clone, Copy, PartialEq, Eq, Structural, Debug)]
pub enum LogLevel {
    Debug,
    Info,
    Warning,
    Error,
}

impl LogLevel {
    /// The numeric code a severity is stored under.
    pub fn code(&self) -> (r: i32)
        ensures
            *self is Debug ==> r == 0,
            *self is Info ==> r == 1,
            *self is Warning ==> r == 2,
            *self is Error ==> r == 3,
    {
        match self {
            LogLevel::Debug => 0,
            LogLevel::Info => 1,
            LogLevel::Warning => 2,
            LogLevel::Error => 3,
        }
    }

    /// The severity stored under a numeric code; unknown codes read as
    /// `Info`.
    pub fn from_code(l: i32) -> (r: LogLevel)
        ensures
            l == 0 ==> r is Debug,
            l == 1 ==> r is Info,
            l == 2 ==> r is Warning,
            l == 3 ==> r is Error,
            !(0 <= l <= 3) ==> r is Info,
    {
        if l == 0 {
            LogLevel::Debug
        } else if l == 1 {
            LogLevel::Info
        } else if l == 2 {
            LogLevel::Warning
        } else if l == 3 {
            LogLevel::Error
        } else {
            LogLevel::Info
        }
    }
}

/// One address row: the policy applied to everything sent to this address.
pub struct Address {
    /// The canonical address.
    pub address: String,
    /// Owning user.
    pub user_id: i32,
    /// Messages allowed per period.
    pub email_quota: i32,
    /// Messages received so far; non-decreasing.
    pub num_received: i32,
    /// Largest acceptable message, in bytes.
    pub max_email_size: i32,
    /// Storage quota, in bytes.
    pub storage_quota: i64,
    /// Storage used so far, in bytes; non-decreasing.
    pub storage_used: i64,
    /// Access token for the storage backend.
    pub storage_token: String,
    /// Which backend this address stores to.
    pub storage_backend: storage::Backend,
    /// Base path under which attachments are stored.
    pub storage_path: String,
    /// When the token was last renewed, in seconds since the epoch.
    pub last_renewal_time: i64,
    /// Senders allowed to mail this address, when the whitelist is on.
    pub whitelist: Vec<String>,
    /// Whether the whitelist is enforced.
    pub is_whitelist_enabled: bool,
    /// Whether the address is active.
    pub is_active: bool,
}

impl Address {
    /// Counters an address row must satisfy: signs are sound and the
    /// configured quotas fit comfortably below the machine limits.
    pub open spec fn wf(self) -> bool {
        &&& 0 <= self.num_received
        &&& 0 <= self.email_quota
        &&& 0 <= self.max_email_size
        &&& 0 <= self.storage_used
        &&& 0 <= self.storage_quota <= 0x4000000000000000
    }

    /// Whether `sender` may mail this address: the whitelist is off, or the
    /// sender is on it.
    pub open spec fn spec_sender_allowed(self, sender: Seq<char>) -> bool {
        !self.is_whitelist_enabled || self.whitelist.deep_view().contains(sender)
    }

    /// Validate the sender of `email` against this address's whitelist.
    /// `false` is not an error but a policy outcome.
    pub fn validate_sender(&self, email: &Email) -> (r: bool)
        ensures
            r == self.spec_sender_allowed(email.sender@),
    {
        if !self.is_whitelist_enabled {
            return true;
        }
        let n = self.whitelist.len();
        let mut i: usize = 0;
        while i < n
            invariant
                n == self.whitelist@.len(),
                i <= n,
                forall|j: int|
                    0 <= j < i ==> self.whitelist.deep_view()[j] != email.sender@,
            decreases n - i,
        {
            if text::str_eq(self.whitelist[i].as_str(), email.sender.as_str()) {
                assert(self.whitelist.deep_view()[i as int] == email.sender@);
                return true;
            }
            proof {
                assert(self.whitelist.deep_view()[i as int] == self.whitelist@[i as int]@);
            }
            i = i + 1;
        }
        assert(forall|j: int|
            0 <= j < self.whitelist.deep_view().len()
                ==> self.whitelist.deep_view()[j] != email.sender@);
        false
    }

    /// Add `size` bytes to the stored usage of every row under this
    /// address and, when the message body itself was received, count one
    /// more received message there. Both counters only ever grow.
    pub fn update_storage_used(&self, size: usize, email_received: bool, store: &mut Store)
        requires
            forall|j: int|
                0 <= j < old(store).addresses@.len() && (#[trigger] old(
                    store,
                ).addresses@[j].address@) == self.address@ ==> 0 <= old(
                    store,
                ).addresses@[j].storage_used && old(store).addresses@[j].storage_used + size
                    <= i64::MAX && (email_received ==> old(store).addresses@[j].num_received
                    < i32::MAX),
        ensures
            final(store).mail == old(store).mail,
            final(store).logs == old(store).logs,
            final(store).addresses@.len() == old(store).addresses@.len(),
            forall|j: int|
                0 <= j < old(store).addresses@.len() ==> final(store).addresses@[j] == if (
                #[trigger] old(store).addresses@[j].address@) == self.address@ {
                    (Address {
                        storage_used: (old(store).addresses@[j].storage_used + size) as i64,
                        num_received: (old(store).addresses@[j].num_received + if email_received {
                            1int
                        } else {
                            0int
                        }) as i32,
                        ..old(store).addresses@[j]
                    })
                } else {
                    old(store).addresses@[j]
                },
    {
        let n = store.addresses.len();
        let mut i: usize = 0;
        while i < n
            invariant
                n == store.addresses@.len(),
                n == old(store).addresses@.len(),
                i <= n,
                store.mail == old(store).mail,
                store.logs == old(store).logs,
                forall|j: int|
                    0 <= j < old(store).addresses@.len() && (#[trigger] old(
                        store,
                    ).addresses@[j].address@) == self.address@ ==> 0 <= old(
                        store,
                    ).addresses@[j].storage_used && old(store).addresses@[j].storage_used + size
                        <= i64::MAX && (email_received ==> old(store).addresses@[j].num_received
                        < i32::MAX),
                forall|j: int|
                    0 <= j < i ==> store.addresses@[j] == if (#[trigger] old(
                        store,
                    ).addresses@[j].address@) == self.address@ {
                        (Address {
                            storage_used: (old(store).addresses@[j].storage_used + size) as i64,
                            num_received: (old(store).addresses@[j].num_received
                                + if email_received {
                                1int
                            } else {
                                0int
                            }) as i32,
                            ..old(store).addresses@[j]
                        })
                    } else {
                        old(store).addresses@[j]
                    },
                forall|j: int|
                    i <= j < n ==> store.addresses@[j] == old(store).addresses@[j],
            decreases n - i,
        {
            if text::str_eq(store.addresses[i].address.as_str(), self.address.as_str()) {
                proof {
                    assert(store.addresses@[i as int] == old(store).addresses@[i as int]);
                    assert(old(store).addresses@[i as int].address@ == self.address@);
                }
                let used = store.addresses[i].storage_used;
                store.addresses[i].storage_used = used + (size as i64);
                if email_received {
                    let received = store.addresses[i].num_received;
                    store.addresses[i].num_received = received + 1;
                }
            }
            i = i + 1;
        }
    }

    /// Whether two rows carry the same values. Field-for-field equality,
    /// with the whitelist compared by its contents.
    pub open spec fn eqv(self, o: Address) -> bool {
        &&& self.address == o.address
        &&& self.user_id == o.user_id
        &&& self.email_quota == o.email_quota
        &&& self.num_received == o.num_received
        &&& self.max_email_size == o.max_email_size
        &&& self.storage_quota == o.storage_quota
        &&& self.storage_used == o.storage_used
        &&& self.storage_token == o.storage_token
        &&& self.storage_backend == o.storage_backend
        &&& self.storage_path == o.storage_path
        &&& self.last_renewal_time == o.last_renewal_time
        &&& self.whitelist.deep_view() == o.whitelist.deep_view()
        &&& self.is_whitelist_enabled == o.is_whitelist_enabled
        &&& self.is_active == o.is_active
    }

    /// A copy of this row carrying the same values.
    pub fn duplicate(&self) -> (r: Address)
        ensures
            r.eqv(*self),
    {
        let mut whitelist: Vec<String> = Vec::new();
        let n = self.whitelist.len();
        let mut i: usize = 0;
        while i < n
            invariant
                n == self.whitelist@.len(),
                i <= n,
                whitelist@ == self.whitelist@.subrange(0, i as int),
            decreases n - i,
        {
            whitelist.push(self.whitelist[i].clone());
            assert(whitelist@ =~= self.whitelist@.subrange(0, i + 1));
            i = i + 1;
        }
        assert(whitelist@ =~= self.whitelist@);
        Address {
            address: self.address.clone(),
            user_id: self.user_id,
            email_quota: self.email_quota,
            num_received: self.num_received,
            max_email_size: self.max_email_size,
            storage_quota: self.storage_quota,
            storage_used: self.storage_used,
            storage_token: self.storage_token.clone(),
            storage_backend: self.storage_backend,
            storage_path: self.storage_path.clone(),
            last_renewal_time: self.last_renewal_time,
            whitelist,
            is_whitelist_enabled: self.is_whitelist_enabled,
            is_active: self.is_active,
        }
    }
}

/// One row of the mail table.
pub struct MailRow {
    /// The message's deterministic UUID; unique within the table.
    pub uuid: String,
    /// The resolved recipient address the row is keyed under.
    pub address: String,
    /// Number of attachments announced for the message.
    pub num_attachments: u16,
    /// Total message size, in bytes.
    pub total_size: usize,
    /// The message's Message-ID, when it carried one.
    pub message_id: Option<String>,
    /// Whether processing has (so far) succeeded.
    pub status: bool,
    /// The failure message, empty while none occurred.
    pub error_msg: String,
}

/// One row of the audit log.
pub struct LogRow {
    /// The message the entry is about, when it is about one.
    pub mail_id: Option<String>,
    /// The entry's text.
    pub msg: String,
    /// Its severity.
    pub level: LogLevel,
}

/// The relational store: address policy rows, the mail table, and the
/// audit log.
pub struct Store {
    pub addresses: Vec<Address>,
    pub mail: Vec<MailRow>,
    pub logs: Vec<LogRow>,
}

/// The first row for one address, in table order.
pub open spec fn spec_find_row(rows: Seq<Address>, addr: Seq<char>) -> Option<int>
    decreases rows.len(),
{
    if rows.len() == 0 {
        None
    } else if rows.first().address@ == addr {
        Some(0)
    } else {
        match spec_find_row(rows.drop_first(), addr) {
            Some(i) => Some(i + 1),
            None => None,
        }
    }
}

pub proof fn lemma_find_row_ensures(rows: Seq<Address>, addr: Seq<char>)
    ensures
        match spec_find_row(rows, addr) {
            Some(i) => {
                &&& 0 <= i < rows.len()
                &&& rows[i].address@ == addr
                &&& forall|j: int| 0 <= j < i ==> (#[trigger] rows[j].address@) != addr
            },
            None => forall|j: int| 0 <= j < rows.len() ==> (#[trigger] rows[j].address@) != addr,
        },
    decreases rows.len(),
{
    if rows.len() > 0 && rows.first().address@ != addr {
        lemma_find_row_ensures(rows.drop_first(), addr);
        assert forall|j: int| 1 <= j < rows.len() implies rows.drop_first()[j - 1]
            == #[trigger] rows[j] by {}
    }
}

pub proof fn lemma_find_row_prefix(rows: Seq<Address>, addr: Seq<char>, i: int)
    requires
        0 <= i < rows.len(),
        rows[i].address@ == addr,
        forall|j: int| 0 <= j < i ==> (#[trigger] rows[j].address@) != addr,
    ensures
        spec_find_row(rows, addr) == Some(i),
    decreases i,
{
    if i > 0 {
        assert forall|j: int| 0 <= j < i - 1 implies (#[trigger] rows.drop_first()[j].address@)
            != addr by {
            assert(rows.drop_first()[j] == rows[j + 1]);
        }
        assert(rows.drop_first()[i - 1] == rows[i]);
        lemma_find_row_prefix(rows.drop_first(), addr, i - 1);
    }
}

/// The row the candidate recipients resolve to: the first candidate, in
/// the order the message presents them, that has an address row.
pub open spec fn spec_find_address(rows: Seq<Address>, rcpts: Seq<Seq<char>>) -> Option<int>
    decreases rcpts.len(),
{
    if rcpts.len() == 0 {
        None
    } else {
        match spec_find_row(rows, rcpts.first()) {
            Some(i) => Some(i),
            None => spec_find_address(rows, rcpts.drop_first()),
        }
    }
}

/// The index of the mail row keyed by `uuid`, if one exists.
pub open spec fn spec_find_mail(rows: Seq<MailRow>, uuid: Seq<char>) -> Option<int>
    decreases rows.len(),
{
    if rows.len() == 0 {
        None
    } else if rows.first().uuid@ == uuid {
        Some(0)
    } else {
        match spec_find_mail(rows.drop_first(), uuid) {
            Some(i) => Some(i + 1),
            None => None,
        }
    }
}

pub proof fn lemma_find_address_ensures(rows: Seq<Address>, rcpts: Seq<Seq<char>>)
    ensures
        match spec_find_address(rows, rcpts) {
            Some(i) => {
                &&& 0 <= i < rows.len()
                &&& rcpts.contains(rows[i].address@)
            },
            None => forall|j: int|
                0 <= j < rows.len() ==> !rcpts.contains(#[trigger] rows[j].address@),
        },
    decreases rcpts.len(),
{
    if rcpts.len() > 0 {
        lemma_find_row_ensures(rows, rcpts.first());
        match spec_find_row(rows, rcpts.first()) {
            Some(i) => {
                assert(rcpts[0] == rcpts.first());
            },
            None => {
                lemma_find_address_ensures(rows, rcpts.drop_first());
                if spec_find_address(rows, rcpts.drop_first()) is None {
                    assert forall|j: int| 0 <= j < rows.len() implies !rcpts.contains(
                        #[trigger] rows[j].address@,
                    ) by {
                        if rcpts.contains(rows[j].address@) {
                            let k = choose|k: int|
                                0 <= k < rcpts.len() && rcpts[k] == rows[j].address@;
                            if k == 0 {
                                assert(rows[j].address@ == rcpts.first());
                            } else {
                                assert(rcpts.drop_first()[k - 1] == rcpts[k]);
                                assert(rcpts.drop_first().contains(rows[j].address@));
                            }
                        }
                    }
                } else {
                    let i = spec_find_address(rows, rcpts.drop_first())->0;
                    assert(rcpts.drop_first().contains(rows[i].address@));
                    let k = choose|k: int|
                        0 <= k < rcpts.drop_first().len() && rcpts.drop_first()[k]
                            == rows[i].address@;
                    assert(rcpts[k + 1] == rcpts.drop_first()[k]);
                }
            },
        }
    }
}

pub proof fn lemma_find_mail_ensures(rows: Seq<MailRow>, uuid: Seq<char>)
    ensures
        match spec_find_mail(rows, uuid) {
            Some(i) => {
                &&& 0 <= i < rows.len()
                &&& rows[i].uuid@ == uuid
                &&& forall|j: int| 0 <= j < i ==> (#[trigger] rows[j].uuid@) != uuid
            },
            None => forall|j: int| 0 <= j < rows.len() ==> (#[trigger] rows[j].uuid@) != uuid,
        },
    decreases rows.len(),
{
    if rows.len() > 0 && rows.first().uuid@ != uuid {
        lemma_find_mail_ensures(rows.drop_first(), uuid);
        assert forall|j: int| 1 <= j < rows.len() implies rows.drop_first()[j - 1]
            == #[trigger] rows[j] by {}
    }
}

impl Store {
    /// Every address row is well-formed, and each address has at most one
    /// row.
    pub open spec fn wf(self) -> bool {
        &&& forall|i: int| 0 <= i < self.addresses@.len() ==> (#[trigger] self.addresses@[i]).wf()
        &&& forall|i: int, j: int|
            0 <= i < j < self.addresses@.len() ==> (#[trigger] self.addresses@[i].address@) != (
            #[trigger] self.addresses@[j].address@)
    }

    /// Resolve the candidate recipients of a message to the first
    /// candidate, in the order the message presents them, that has an
    /// address row. `None` means no candidate has a row and the message
    /// will be rejected.
    pub fn get_address(&self, recipients: &Vec<String>) -> (r: Option<Address>)
        ensures
            match r {
                Some(a) => {
                    &&& spec_find_address(self.addresses@, recipients.deep_view()) matches Some(i)
                        && a.eqv(self.addresses@[i])
                },
                None => spec_find_address(self.addresses@, recipients.deep_view()) is None,
            },
    {
        let ghost dv = recipients.deep_view();
        let m = recipients.len();
        let mut k: usize = 0;
        proof {
            assert(dv.subrange(0, m as int) == dv);
        }
        while k < m
            invariant
                m == recipients@.len(),
                k <= m,
                dv == recipients.deep_view(),
                spec_find_address(self.addresses@, dv) == spec_find_address(
                    self.addresses@,
                    dv.subrange(k as int, m as int),
                ),
            decreases m - k,
        {
            let ghost suffix = dv.subrange(k as int, m as int);
            proof {
                assert(suffix.first() == dv[k as int]);
                assert(dv[k as int] == recipients@[k as int]@);
                assert(suffix.drop_first() == dv.subrange(k + 1, m as int));
            }
            let n = self.addresses.len();
            let mut i: usize = 0;
            while i < n
                invariant
                    n == self.addresses@.len(),
                    i <= n,
                    k < m == recipients@.len(),
                    dv == recipients.deep_view(),
                    spec_find_address(self.addresses@, dv) == spec_find_address(
                        self.addresses@,
                        dv.subrange(k as int, m as int),
                    ),
                    forall|j: int|
                        0 <= j < i ==> (#[trigger] self.addresses@[j].address@) != dv[k as int],
                decreases n - i,
            {
                if text::str_eq(self.addresses[i].address.as_str(), recipients[k].as_str()) {
                    proof {
                        assert(self.addresses@[i as int].address@ == dv[k as int]);
                        lemma_find_row_prefix(self.addresses@, dv[k as int], i as int);
                        assert(spec_find_row(self.addresses@, dv[k as int]) == Some(i as int));
                        assert(dv.subrange(k as int, m as int).first() == dv[k as int]);
                        assert(spec_find_address(
                            self.addresses@,
                            dv.subrange(k as int, m as int),
                        ) == Some(i as int));
                        assert(spec_find_address(self.addresses@, dv) == Some(i as int));
                    }
                    return Some(self.addresses[i].duplicate());
                }
                i = i + 1;
            }
            proof {
                lemma_find_row_ensures(self.addresses@, dv[k as int]);
                if spec_find_row(self.addresses@, dv[k as int]) is Some {
                    let w = spec_find_row(self.addresses@, dv[k as int])->0;
                    assert(self.addresses@[w].address@ == dv[k as int]);
                    assert(false);
                }
            }
            k = k + 1;
        }
        proof {
            assert(dv.subrange(m as int, m as int) =~= Seq::<Seq<char>>::empty());
        }
        None
    }

    /// Append a row to the audit log. Mirrors a best-effort insert: the
    /// caller never fails on its account.
    pub fn log(&mut self, msg: String, mail_id: Option<String>, level: LogLevel)
        ensures
            final(self).logs@ == old(self).logs@.push(
                LogRow { mail_id: mail_id, msg: msg, level: level },
            ),
            final(self).addresses == old(self).addresses,
            final(self).mail == old(self).mail,
    {
        self.logs.push(LogRow { mail_id, msg, level });
    }

    /// Upsert the mail row for `email`, keyed by its UUID, with initial
    /// status `true` and no error: a retried filter produces the same UUID,
    /// so re-inserting the same message leaves one row.
    pub fn insert_email(&mut self, email: &Email)
        requires
            email.recipients@.len() > 0,
        ensures
            match spec_find_mail(old(self).mail@, email.uuid@) {
                Some(i) => {
                    &&& final(self).mail@.len() == old(self).mail@.len()
                    &&& spec_find_mail(final(self).mail@, email.uuid@) == Some(i)
                    &&& spec_inserted_row(final(self).mail@[i], *email)
                    &&& forall|j: int|
                        0 <= j < old(self).mail@.len() && j != i ==> final(self).mail@[j] == old(
                            self,
                        ).mail@[j]
                },
                None => {
                    &&& final(self).mail@.len() == old(self).mail@.len() + 1
                    &&& spec_find_mail(final(self).mail@, email.uuid@) == Some(
                        old(self).mail@.len() as int,
                    )
                    &&& spec_inserted_row(final(self).mail@.last(), *email)
                    &&& forall|j: int|
                        0 <= j < old(self).mail@.len() ==> final(self).mail@[j] == old(
                            self,
                        ).mail@[j]
                },
            },
            final(self).addresses == old(self).addresses,
            final(self).logs == old(self).logs,
    {
        let row = MailRow {
            uuid: email.uuid.clone(),
            address: email.recipients[0].clone(),
            num_attachments: email.num_attachments,
            total_size: email.size,
            message_id: match &email.message_id {
                Some(m) => Some(m.clone()),
                None => None,
            },
            status: true,
            error_msg: String::new(),
        };
        let n = self.mail.len();
        let mut i: usize = 0;
        while i < n
            invariant
                n == self.mail@.len(),
                i <= n,
                self.mail == old(self).mail,
                self.addresses == old(self).addresses,
                self.logs == old(self).logs,
                forall|j: int| 0 <= j < i ==> (#[trigger] self.mail@[j].uuid@) != email.uuid@,
                row.uuid@ == email.uuid@,
                spec_inserted_row(row, *email),
            decreases n - i,
        {
            if text::str_eq(self.mail[i].uuid.as_str(), email.uuid.as_str()) {
                proof {
                    lemma_find_mail_prefix(self.mail@, email.uuid@, i as int);
                }
                self.mail[i] = row;
                proof {
                    lemma_find_mail_prefix(self.mail@, email.uuid@, i as int);
                }
                return ;
            }
            i = i + 1;
        }
        proof {
            lemma_find_mail_ensures(self.mail@, email.uuid@);
        }
        self.mail.push(row);
        proof {
            lemma_find_mail_prefix(self.mail@, email.uuid@, n as int);
        }
    }
}

impl Store {
    /// Set the status of the mail row keyed by `uuid`, together with its
    /// error message. Best-effort, as a SQL update by key is: when no
    /// row exists, nothing changes.
    pub fn update_email(&mut self, uuid: &str, status: bool, msg: Option<&str>)
        ensures
            final(self).addresses == old(self).addresses,
            final(self).logs == old(self).logs,
            match spec_find_mail(old(self).mail@, uuid@) {
                Some(i) => {
                    &&& final(self).mail@.len() == old(self).mail@.len()
                    &&& final(self).mail@[i] == (MailRow {
                        status: status,
                        error_msg: final(self).mail@[i].error_msg,
                        ..old(self).mail@[i]
                    })
                    &&& final(self).mail@[i].error_msg@ == (match msg {
                        Some(m) => m@,
                        None => Seq::<char>::empty(),
                    })
                    &&& forall|j: int|
                        0 <= j < old(self).mail@.len() && j != i ==> final(self).mail@[j] == old(
                            self,
                        ).mail@[j]
                },
                None => final(self).mail == old(self).mail,
            },
    {
        let n = self.mail.len();
        let mut i: usize = 0;
        while i < n
            invariant
                n == self.mail@.len(),
                i <= n,
                self.mail == old(self).mail,
                self.addresses == old(self).addresses,
                self.logs == old(self).logs,
                forall|j: int| 0 <= j < i ==> (#[trigger] self.mail@[j].uuid@) != uuid@,
            decreases n - i,
        {
            if text::str_eq(self.mail[i].uuid.as_str(), uuid) {
                proof {
                    lemma_find_mail_prefix(self.mail@, uuid@, i as int);
                }
                let row = MailRow {
                    uuid: self.mail[i].uuid.clone(),
                    address: self.mail[i].address.clone(),
                    num_attachments: self.mail[i].num_attachments,
                    total_size: self.mail[i].total_size,
                    message_id: match &self.mail[i].message_id {
                        Some(m) => Some(m.clone()),
                        None => None,
                    },
                    status,
                    error_msg: match msg {
                        Some(m) => m.to_owned(),
                        None => String::new(),
                    },
                };
                self.mail[i] = row;
                return ;
            }
            i = i + 1;
        }
        proof {
            lemma_find_mail_ensures(self.mail@, uuid@);
        }
    }

    /// The user a recipient address belongs to, when the address has a row.
    pub fn get_user_id(&self, recipient: &str) -> (r: Option<i32>)
        ensures
            r == spec_user_id_of(self.addresses@, recipient@),
    {
        proof {
            lemma_user_id_of_ensures(self.addresses@, recipient@);
        }
        let n = self.addresses.len();
        let mut i: usize = 0;
        while i < n
            invariant
                n == self.addresses@.len(),
                i <= n,
                forall|j: int| 0 <= j < i ==> (#[trigger] self.addresses@[j].address@)
                    != recipient@,
            decreases n - i,
        {
            if text::str_eq(self.addresses[i].address.as_str(), recipient) {
                proof {
                    lemma_user_id_of_prefix(self.addresses@, recipient@, i as int);
                }
                return Some(self.addresses[i].user_id);
            }
            i = i + 1;
        }
        proof {
            lemma_user_id_of_ensures(self.addresses@, recipient@);
        }
        None
    }
}

/// The user id of the first row for `addr`, in table order.
pub open spec fn spec_user_id_of(rows: Seq<Address>, addr: Seq<char>) -> Option<i32>
    decreases rows.len(),
{
    if rows.len() == 0 {
        None
    } else if rows.first().address@ == addr {
        Some(rows.first().user_id)
    } else {
        spec_user_id_of(rows.drop_first(), addr)
    }
}

proof fn lemma_user_id_of_ensures(rows: Seq<Address>, addr: Seq<char>)
    ensures
        (forall|j: int| 0 <= j < rows.len() ==> (#[trigger] rows[j].address@) != addr)
            ==> spec_user_id_of(rows, addr) is None,
    decreases rows.len(),
{
    if rows.len() > 0 {
        lemma_user_id_of_ensures(rows.drop_first(), addr);
        if forall|j: int| 0 <= j < rows.len() ==> (#[trigger] rows[j].address@) != addr {
            assert forall|j: int| 0 <= j < rows.len() - 1 implies (#[trigger] rows.drop_first()[j].address@) != addr by {
                assert(rows.drop_first()[j] == rows[j + 1]);
            }
        }
    }
}

proof fn lemma_user_id_of_prefix(rows: Seq<Address>, addr: Seq<char>, i: int)
    requires
        0 <= i < rows.len(),
        rows[i].address@ == addr,
        forall|j: int| 0 <= j < i ==> (#[trigger] rows[j].address@) != addr,
    ensures
        spec_user_id_of(rows, addr) == Some(rows[i].user_id),
    decreases i,
{
    if i > 0 {
        assert forall|j: int| 0 <= j < i - 1 implies (#[trigger] rows.drop_first()[j].address@)
            != addr by {
            assert(rows.drop_first()[j] == rows[j + 1]);
        }
        assert(rows.drop_first()[i - 1] == rows[i]);
        lemma_user_id_of_prefix(rows.drop_first(), addr, i - 1);
    }
}

/// The row `insert_email` writes for a message.
pub open spec fn spec_inserted_row(row: MailRow, email: Email) -> bool {
    &&& row.uuid@ == email.uuid@
    &&& row.address@ == email.recipients.deep_view()[0]
    &&& row.num_attachments == email.num_attachments
    &&& row.total_size == email.size
    &&& spec_opt_str(row.message_id) == spec_opt_str(email.message_id)
    &&& row.status == true
    &&& row.error_msg@ == Seq::<char>::empty()
}

/// When every row before `i` misses `uuid` and row `i` hits it, the search
/// finds `i`.
pub proof fn lemma_find_mail_prefix(rows: Seq<MailRow>, uuid: Seq<char>, i: int)
    requires
        0 <= i < rows.len(),
        rows[i].uuid@ == uuid,
        forall|j: int| 0 <= j < i ==> (#[trigger] rows[j].uuid@) != uuid,
    ensures
        spec_find_mail(rows, uuid) == Some(i),
    decreases i,
{
    if i == 0 {
    } else {
        assert forall|j: int| 0 <= j < i - 1 implies (#[trigger] rows.drop_first()[j].uuid@)
            != uuid by {
            assert(rows.drop_first()[j] == rows[j + 1]);
        }
        assert(rows.drop_first()[i - 1] == rows[i]);
        lemma_find_mail_prefix(rows.drop_first(), uuid, i - 1);
    }
}

/// The view of an optional string.
pub open spec fn spec_opt_str(o: Option<String>) -> Option<Seq<char>> {
    match o {
        Some(s) => Some(s@),
        None => None,
    }
}

/// The mail row keyed by `uuid`, if one exists.
pub open spec fn spec_mail_row_of(rows: Seq<MailRow>, uuid: Seq<char>) -> Option<MailRow> {
    match spec_find_mail(rows, uuid) {
        Some(i) => Some(rows[i]),
        None => None,
    }
}

} // verus!
