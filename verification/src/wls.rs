//! The world locator: it reads a request for a world and answers with the
//! host and port of a bureau that hosts it.

use vstd::prelude::*;
use vstd::slice::*;
use vstd::utf8::*;
use crate::bureau::BureauConfig;
use crate::bureau_manager::{vacancy, BureauManager, ManagerModel, Vacancy};
use crate::protocol::text_of_utf8;
use crate::text::{chars_of, opt_text, same_text};
use crate::user::{ReadModel, ReadOutcome};

verus! {

/// The most bytes of a request that are read.
pub const MAX_REQUEST: usize = 256;

/// The number of seconds that a client may take for its request.
pub const REQUEST_SECONDS: u64 = 10;

/// The settings of a world locator.
#[derive(Clone, Debug, PartialEq, Eq)]
pub struct WlsOptions {
    /// The host name that answers carry.
    pub host_name: String,
    /// The number of bureaus that may host one world at a time.
    pub max_bureaus: usize,
    /// The file that lists the worlds, one per line, if there is one.
    pub wrl_list: Option<String>,
    /// The settings of every bureau that is started.
    pub bureau_config: BureauConfig,
}

/// The worlds that are served where no list is given.
pub open spec fn default_wrl_names() -> Seq<Seq<char>> {
    seq![
        "SAPARi COAST MIL."@,
        "SAPARi DOWNTOWN MIL."@,
        "HONJO JIDAIMURA MIL."@,
        "SAPARi PARK MIL."@,
        "SAPARi SPA"@,
        "SAPARi GARDEN"@,
        "SAPARi HILLS"@,
    ]
}

/// The texts of some strings.
pub open spec fn texts(v: Seq<String>) -> Seq<Seq<char>> {
    Seq::new(v.len(), |i: int| v[i]@)
}

/// The worlds that are served where no list is given.
pub fn default_wrls() -> (r: Vec<String>)
    ensures
        texts(r@) == default_wrl_names(),
{
    let mut r: Vec<String> = Vec::new();
    r.push("SAPARi COAST MIL.".to_owned());
    r.push("SAPARi DOWNTOWN MIL.".to_owned());
    r.push("HONJO JIDAIMURA MIL.".to_owned());
    r.push("SAPARi PARK MIL.".to_owned());
    r.push("SAPARi SPA".to_owned());
    r.push("SAPARi GARDEN".to_owned());
    r.push("SAPARi HILLS".to_owned());
    assert(texts(r@) =~= default_wrl_names());
    r
}

/// The first index at or after `from` that holds a comma, or the length of
/// `s` where there is none.
pub open spec fn comma_index(s: Seq<char>, from: int) -> int
    decreases s.len() - from,
{
    if 0 <= from < s.len() && s[from] != ',' {
        comma_index(s, from + 1)
    } else {
        from
    }
}

/// The world that a request names: the third of its fields, which commas
/// part. There is none where the request is not UTF-8, its first field is
/// not `f`, or it has fewer than three fields.
pub open spec fn request_wrl(bytes: Seq<u8>) -> Option<Seq<char>> {
    let s = decode_utf8(bytes);
    let second = comma_index(s, 2);
    if !valid_utf8(bytes) {
        None
    } else if s.len() < 2 || s[0] != 'f' || s[1] != ',' {
        None
    } else if second >= s.len() {
        None
    } else {
        Some(s.subrange(second + 1, comma_index(s, second + 1)))
    }
}

/// `comma_index` lies between `from` and the length of `s`.
pub proof fn lemma_comma_index(s: Seq<char>, from: int)
    requires
        0 <= from <= s.len(),
    ensures
        from <= comma_index(s, from) <= s.len(),
    decreases s.len() - from,
{
    if from < s.len() && s[from] != ',' {
        lemma_comma_index(s, from + 1);
    }
}

/// The index of the first comma of `chars` at or after `from`.
fn find_comma(chars: &Vec<char>, from: usize) -> (r: usize)
    requires
        from <= chars@.len(),
    ensures
        r == comma_index(chars@, from as int),
        from <= r <= chars@.len(),
{
    let mut i: usize = from;
    while i < chars.len() && chars[i] != ','
        invariant
            from <= i <= chars@.len(),
            comma_index(chars@, i as int) == comma_index(chars@, from as int),
        decreases chars@.len() - i,
    {
        i = i + 1;
    }
    i
}

/// The world that a request names, if it names one.
pub fn parse_request(bytes: &[u8]) -> (r: Option<String>)
    ensures
        opt_text(r) == request_wrl(bytes@),
{
    let request: String = match text_of_utf8(slice_to_vec(bytes)) {
        Some(s) => s,
        None => {
            return None;
        },
    };
    proof {
        encode_utf8_decode_utf8(request@);
    }
    let chars: Vec<char> = chars_of(request.as_str());
    if chars.len() < 2 || chars[0] != 'f' || chars[1] != ',' {
        return None;
    }
    let second: usize = find_comma(&chars, 2);
    if second >= chars.len() {
        return None;
    }
    let third: usize = find_comma(&chars, second + 1);
    Some(request.as_str().substring_char(second + 1, third).to_owned())
}

/// The decimal digits of `n`, as ASCII bytes.
pub open spec fn decimal(n: nat) -> Seq<u8>
    decreases n,
{
    if n < 10 {
        seq![(48 + n) as u8]
    } else {
        decimal(n / 10).push((48 + n % 10) as u8)
    }
}

/// The answer that turns a client away: `f,9`.
pub open spec fn refusal_bytes() -> Seq<u8> {
    seq![0x66u8, 0x2Cu8, 0x39u8]
}

/// The answer that sends a client to `host` and `port`: `f,0,`, the host,
/// a comma, the port in decimal digits, and a zero byte.
pub open spec fn response_bytes(host: Seq<char>, port: u16) -> Seq<u8> {
    seq![0x66u8, 0x2Cu8, 0x30u8, 0x2Cu8] + encode_utf8(host) + seq![0x2Cu8] + decimal(port as nat)
        + seq![0u8]
}

/// Appends the decimal digits of `n` to `out`.
fn push_decimal(out: &mut Vec<u8>, n: u16)
    ensures
        final(out)@ == old(out)@ + decimal(n as nat),
    decreases n,
{
    if n < 10 {
        out.push(48 + n as u8);
        assert(out@ =~= old(out)@ + decimal(n as nat));
    } else {
        push_decimal(out, n / 10);
        out.push(48 + (n % 10) as u8);
        assert(out@ =~= old(out)@ + decimal(n as nat));
    }
}

/// The answer that turns a client away.
pub fn refusal() -> (r: Vec<u8>)
    ensures
        r@ == refusal_bytes(),
{
    let mut r: Vec<u8> = Vec::new();
    r.push(0x66);
    r.push(0x2C);
    r.push(0x39);
    assert(r@ =~= refusal_bytes());
    r
}

/// The answer that sends a client to `host` and `port`.
pub fn response(host: &str, port: u16) -> (r: Vec<u8>)
    ensures
        r@ == response_bytes(host@, port),
{
    let mut r: Vec<u8> = Vec::new();
    r.push(0x66);
    r.push(0x2C);
    r.push(0x30);
    r.push(0x2C);
    r.extend_from_slice(host.as_bytes());
    r.push(0x2C);
    let ghost head = r@;
    assert(head =~= seq![0x66u8, 0x2Cu8, 0x30u8, 0x2Cu8] + encode_utf8(host@) + seq![0x2Cu8]);
    push_decimal(&mut r, port);
    r.push(0);
    assert(r@ =~= response_bytes(host@, port));
    r
}

/// What the locator does about a request.
#[derive(Clone, Debug, PartialEq, Eq)]
pub enum Lookup {
    /// The answer to write; the client is then done with.
    Answer(Vec<u8>),
    /// The pool at this index is to get a new bureau: one is to be started
    /// and handed to `spawned`, which gives the answer.
    Spawn(usize),
}

/// A `Lookup` with its bytes as a sequence.
pub enum LookupModel {
    Answer(Seq<u8>),
    Spawn(usize),
}

impl View for Lookup {
    type V = LookupModel;

    open spec fn view(&self) -> LookupModel {
        match *self {
            Lookup::Answer(bytes) => LookupModel::Answer(bytes@),
            Lookup::Spawn(index) => LookupModel::Spawn(index),
        }
    }
}

/// The state of a locator, as plain values.
pub struct WlsModel {
    pub host_name: Seq<char>,
    /// One pool for each world that is served.
    pub managers: Seq<ManagerModel>,
}

impl WlsModel {
    /// Every pool is well formed.
    pub open spec fn wf(self) -> bool {
        forall|i: int| 0 <= i < self.managers.len() ==> (#[trigger] self.managers[i]).wf()
    }

    /// This locator with `managers` in place of its pools.
    pub open spec fn with_managers(self, managers: Seq<ManagerModel>) -> WlsModel {
        WlsModel { managers: managers, ..self }
    }
}

/// The index of the first pool at or after `from` that hosts `wrl`.
pub open spec fn pool_index(managers: Seq<ManagerModel>, wrl: Seq<char>, from: int) -> Option<int>
    decreases managers.len() - from,
{
    if from < 0 || from >= managers.len() {
        None
    } else if managers[from].wrl == wrl {
        Some(from)
    } else {
        pool_index(managers, wrl, from + 1)
    }
}

/// What the locator does about the request `bytes`.
///
/// A request that names no world, or a world that is not served, or a
/// world whose pool is full, is refused. A world with a bureau that has
/// room is answered with that bureau's port. Otherwise a bureau is to be
/// started.
pub open spec fn lookup_model(w: WlsModel, bytes: Seq<u8>) -> LookupModel {
    match request_wrl(bytes) {
        None => LookupModel::Answer(refusal_bytes()),
        Some(wrl) => match pool_index(w.managers, wrl, 0) {
            None => LookupModel::Answer(refusal_bytes()),
            Some(i) => match vacancy(w.managers[i]) {
                Vacancy::Found(port) => LookupModel::Answer(response_bytes(w.host_name, port)),
                Vacancy::Spawn => LookupModel::Spawn(i as usize),
                Vacancy::Full => LookupModel::Answer(refusal_bytes()),
            },
        },
    }
}

/// What becomes of a client that has been read from.
#[derive(Clone, Debug, PartialEq, Eq)]
pub enum Served {
    /// Nothing has arrived yet and the client may take longer.
    Wait,
    /// The client is to be closed without an answer.
    Close,
    /// The request has arrived and this is what to do about it.
    Request(Lookup),
}

/// A `Served` with its bytes as a sequence.
pub enum ServedModel {
    Wait,
    Close,
    Request(LookupModel),
}

impl View for Served {
    type V = ServedModel;

    open spec fn view(&self) -> ServedModel {
        match *self {
            Served::Wait => ServedModel::Wait,
            Served::Close => ServedModel::Close,
            Served::Request(lookup) => ServedModel::Request(lookup@),
        }
    }
}

/// What becomes of a client that connected at the time `since` and was read
/// from at the time `now`: it may wait for `REQUEST_SECONDS`, is closed
/// where the read failed, and is answered as soon as anything has arrived.
pub open spec fn serve_model(w: WlsModel, since: u64, now: u64, read: ReadModel) -> ServedModel {
    match read {
        ReadModel::WouldBlock => if now - since < REQUEST_SECONDS {
            ServedModel::Wait
        } else {
            ServedModel::Close
        },
        ReadModel::Failed => ServedModel::Close,
        ReadModel::Data(bytes) => ServedModel::Request(lookup_model(w, bytes)),
    }
}

/// The world locator.
pub struct Wls {
    host_name: String,
    managers: Vec<BureauManager>,
}

/// The models of some pools.
pub open spec fn manager_models(managers: Seq<BureauManager>) -> Seq<ManagerModel> {
    Seq::new(managers.len(), |i: int| managers[i]@)
}

impl View for Wls {
    type V = WlsModel;

    closed spec fn view(&self) -> WlsModel {
        WlsModel { host_name: self.host_name@, managers: manager_models(self.managers@) }
    }
}

/// Replacing a pool of a locator replaces its model and no other.
broadcast proof fn lemma_manager_update(managers: Seq<BureauManager>, index: int, x: BureauManager)
    requires
        0 <= index < managers.len(),
    ensures
        #[trigger] manager_models(managers.update(index, x)) == manager_models(managers).update(
            index,
            x@,
        ),
{
    assert(manager_models(managers.update(index, x)) =~= manager_models(managers).update(
        index,
        x@,
    ));
}

impl Wls {
    /// A locator that serves the worlds `wrls`, each with an empty pool of
    /// at most `max_bureaus` bureaus.
    pub fn new(host_name: String, wrls: Vec<String>, max_bureaus: usize, config: &BureauConfig) -> (w:
        Wls)
        requires
            config.max_users >= 1,
        ensures
            w@.host_name == host_name@,
            w@.managers.len() == wrls@.len(),
            forall|i: int|
                0 <= i < wrls@.len() ==> #[trigger] w@.managers[i] == (ManagerModel {
                    wrl: wrls@[i]@,
                    pool: Seq::empty(),
                    max: max_bureaus,
                    config: config@,
                }),
            w@.wf(),
    {
        let mut managers: Vec<BureauManager> = Vec::new();
        let mut i: usize = 0;
        while i < wrls.len()
            invariant
                i <= wrls.len(),
                config.max_users >= 1,
                managers@.len() == i,
                forall|k: int|
                    0 <= k < i ==> (#[trigger] managers@[k])@ == (ManagerModel {
                        wrl: wrls@[k]@,
                        pool: Seq::empty(),
                        max: max_bureaus,
                        config: config@,
                    }),
            decreases wrls.len() - i,
        {
            managers.push(BureauManager::new(wrls[i].clone(), max_bureaus, config.duplicate()));
            i = i + 1;
        }
        let w = Wls { host_name, managers };
        assert forall|k: int| 0 <= k < wrls@.len() implies #[trigger] w@.managers[k] == (ManagerModel {
            wrl: wrls@[k]@,
            pool: Seq::empty(),
            max: max_bureaus,
            config: config@,
        }) by {
            assert(w@.managers[k] == managers@[k]@);
        }
        w
    }

    /// The number of pools.
    pub fn len(&self) -> (n: usize)
        ensures
            n == self@.managers.len(),
    {
        self.managers.len()
    }

    /// The pool at `index`.
    pub fn manager(&self, index: usize) -> (m: &BureauManager)
        requires
            index < self@.managers.len(),
        ensures
            m@ == self@.managers[index as int],
    {
        &self.managers[index]
    }

    /// The pool at `index`, whose bureaus are to be run for a tick.
    pub fn manager_mut(&mut self, index: usize) -> (m: &mut BureauManager)
        requires
            index < old(self)@.managers.len(),
        ensures
            m@ == old(self)@.managers[index as int],
            final(self)@ == old(self)@.with_managers(
                old(self)@.managers.update(index as int, final(m)@),
            ),
    {
        broadcast use lemma_manager_update;

        &mut self.managers[index]
    }

    /// The index of the pool that hosts `wrl`.
    pub fn find(&self, wrl: &str) -> (r: Option<usize>)
        ensures
            r matches Some(index) ==> index < self@.managers.len() && pool_index(
                self@.managers,
                wrl@,
                0,
            ) == Some(index as int),
            r is None ==> pool_index(self@.managers, wrl@, 0) is None,
    {
        let mut i: usize = 0;
        while i < self.managers.len()
            invariant
                i <= self.managers.len(),
                pool_index(self@.managers, wrl@, i as int) == pool_index(self@.managers, wrl@, 0),
            decreases self.managers.len() - i,
        {
            assert(self@.managers[i as int] == self.managers@[i as int]@);
            if same_text(self.managers[i].wrl().as_str(), wrl) {
                return Some(i);
            }
            i = i + 1;
        }
        None
    }

    /// Decides what to do about the request `bytes`.
    pub fn lookup(&self, bytes: &[u8]) -> (r: Lookup)
        requires
            self@.wf(),
        ensures
            r@ == lookup_model(self@, bytes@),
            r matches Lookup::Spawn(index) ==> index < self@.managers.len(),
    {
        let wrl: String = match parse_request(bytes) {
            Some(wrl) => wrl,
            None => {
                return Lookup::Answer(refusal());
            },
        };
        let index: usize = match self.find(wrl.as_str()) {
            Some(index) => index,
            None => {
                return Lookup::Answer(refusal());
            },
        };
        assert(self@.managers[index as int] == self.managers@[index as int]@);
        assert(request_wrl(bytes@) == Some(wrl@));
        assert(pool_index(self@.managers, wrl@, 0) == Some(index as int));
        let r = match self.managers[index].available() {
            Vacancy::Found(port) => Lookup::Answer(response(self.host_name.as_str(), port)),
            Vacancy::Spawn => Lookup::Spawn(index),
            Vacancy::Full => Lookup::Answer(refusal()),
        };
        assert((index as int) as usize == index);
        r
    }

    /// Takes the outcome of a read of at most `MAX_REQUEST` bytes from a
    /// client that connected at the time `since`, at the time `now`.
    pub fn serve(&self, since: u64, now: u64, read: ReadOutcome) -> (r: Served)
        requires
            self@.wf(),
        ensures
            r@ == serve_model(self@, since, now, read@),
            r matches Served::Request(Lookup::Spawn(index)) ==> index < self@.managers.len(),
    {
        match read {
            ReadOutcome::WouldBlock => {
                if now < since || now - since < REQUEST_SECONDS {
                    Served::Wait
                } else {
                    Served::Close
                }
            },
            ReadOutcome::Failed => Served::Close,
            ReadOutcome::Data(bytes) => Served::Request(self.lookup(bytes.as_slice())),
        }
    }

    /// Adds a bureau that has just been started on `port` to the pool at
    /// `index` and gives the answer for the client that it was started
    /// for: the bureau's port, or the refusal where the pool was full
    /// after all.
    pub fn spawned(&mut self, index: usize, port: u16, now: u64) -> (r: Vec<u8>)
        requires
            old(self)@.wf(),
            index < old(self)@.managers.len(),
        ensures
            old(self)@.managers[index as int].pool.len() < old(self)@.managers[index as int].max
                ==> r@ == response_bytes(old(self)@.host_name, port) && final(self)@ == old(
                self,
            )@.with_managers(
                old(self)@.managers.update(
                    index as int,
                    old(self)@.managers[index as int].with_pool(
                        old(self)@.managers[index as int].pool.push(
                            old(self)@.managers[index as int].newcomer(port, now),
                        ),
                    ),
                ),
            ),
            old(self)@.managers[index as int].pool.len() >= old(self)@.managers[index as int].max
                ==> r@ == refusal_bytes() && final(self)@ == old(self)@,
            final(self)@.wf(),
    {
        broadcast use lemma_manager_update;

        assert(self@.managers[index as int] == self.managers@[index as int]@);
        let added = self.managers[index].spawn(port, now);
        match added {
            Some(p) => response(self.host_name.as_str(), p),
            None => {
                assert(self@.managers =~= old(self)@.managers);
                refusal()
            },
        }
    }
}

} // verus!
