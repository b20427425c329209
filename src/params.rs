//! Reading the parameters of a request to add a wallet, given in order or by name.
use vstd::prelude::*;
use crate::text::{decimal, decimal_string, join2, same_text};
use crate::wallet::{DescriptorWallet, WatchError};

verus! {

/// A parameter value, as far as reading a wallet needs to tell it apart.
#[derive(Debug)]
pub enum ParamValue {
    Text(String),
    /// A non-negative integer.
    Number(u64),
    /// Anything else.
    Other,
}

/// A parameter: its value and how the request wrote it.
#[derive(Debug)]
pub struct Param {
    pub value: ParamValue,
    pub rendered: String,
}

/// The parameters of a request.
#[derive(Debug)]
pub enum RequestParams {
    /// Parameters given in order.
    Positional(Vec<Param>),
    /// Parameters given by name, each name once.
    Named(Vec<(String, Param)>),
    /// Neither: the request as it was written.
    Other(String),
}

pub ghost enum WatchErrorModel {
    InvalidDescriptor(Seq<char>),
    InvalidChangeDescriptor(Seq<char>),
    InvalidBirthday(Seq<char>),
    InvalidGap(Seq<char>),
    InvalidFormat(Seq<char>),
}

impl WatchError {
    pub open spec fn model(&self) -> WatchErrorModel {
        match self {
            WatchError::InvalidDescriptor(m) => WatchErrorModel::InvalidDescriptor(m@),
            WatchError::InvalidChangeDescriptor(m) => WatchErrorModel::InvalidChangeDescriptor(m@),
            WatchError::InvalidBirthday(m) => WatchErrorModel::InvalidBirthday(m@),
            WatchError::InvalidGap(m) => WatchErrorModel::InvalidGap(m@),
            WatchError::InvalidFormat(m) => WatchErrorModel::InvalidFormat(m@),
        }
    }
}

/// The wallet parameters a request gives.
pub ghost struct ArgsModel {
    pub descriptor: Seq<char>,
    pub change_descriptor: Option<Seq<char>>,
    pub birthday: Option<u64>,
    pub gap: Option<u64>,
}

pub open spec fn text_of(p: Param) -> Seq<char> {
    match p.value {
        ParamValue::Text(t) => t@,
        _ => seq![],
    }
}

pub open spec fn number_of(p: Param) -> u64 {
    match p.value {
        ParamValue::Number(n) => n,
        _ => 0,
    }
}

pub open spec fn count_message(n: nat) -> Seq<char> {
    "Unexpected request format. The request needs 1-4 parameters. Received: "@ + decimal(n)
}

pub open spec fn change_message(p: Param) -> WatchErrorModel {
    WatchErrorModel::InvalidChangeDescriptor(
        "change_descriptor must be a string. Received: "@ + p.rendered@,
    )
}

pub open spec fn birthday_message(p: Param) -> WatchErrorModel {
    WatchErrorModel::InvalidBirthday("birthday must be a number. Received: "@ + p.rendered@)
}

pub open spec fn gap_message(p: Param) -> WatchErrorModel {
    WatchErrorModel::InvalidGap("gap must be a number. Received: "@ + p.rendered@)
}

/// Reads the four parameters from their optional values, in order.
pub open spec fn read_values(
    d: Param,
    cd: Option<Param>,
    b: Option<Param>,
    g: Option<Param>,
) -> Result<ArgsModel, WatchErrorModel> {
    if !(d.value is Text) {
        Err(WatchErrorModel::InvalidDescriptor("descriptor must be a string"@))
    } else if cd is Some && !(cd->0.value is Text) {
        Err(change_message(cd->0))
    } else if b is Some && !(b->0.value is Number) {
        Err(birthday_message(b->0))
    } else if g is Some && !(g->0.value is Number) {
        Err(gap_message(g->0))
    } else {
        Ok(
            ArgsModel {
                descriptor: text_of(d),
                change_descriptor: match cd {
                    Some(p) => Some(text_of(p)),
                    None => None,
                },
                birthday: match b {
                    Some(p) => Some(number_of(p)),
                    None => None,
                },
                gap: match g {
                    Some(p) => Some(number_of(p)),
                    None => None,
                },
            },
        )
    }
}

pub open spec fn nth(a: Seq<Param>, i: int) -> Option<Param> {
    if i < a.len() {
        Some(a[i])
    } else {
        None
    }
}

/// The value of the first parameter named `key`.
pub open spec fn named_get(m: Seq<(String, Param)>, key: Seq<char>) -> Option<Param>
    decreases m.len(),
{
    if m.len() == 0 {
        None
    } else if m[0].0@ == key {
        Some(m[0].1)
    } else {
        named_get(m.drop_first(), key)
    }
}

pub open spec fn allowed_name(k: Seq<char>) -> bool {
    k == "descriptor"@ || k == "change_descriptor"@ || k == "birthday"@ || k == "gap"@
}

/// What a request's parameters say: the wallet's parameters, or what is wrong.
pub open spec fn read_params(p: RequestParams) -> Result<ArgsModel, WatchErrorModel> {
    match p {
        RequestParams::Positional(a) => {
            let a = a@;
            if a.len() < 1 || a.len() > 4 {
                Err(WatchErrorModel::InvalidFormat(count_message(a.len())))
            } else {
                read_values(a[0], nth(a, 1), nth(a, 2), nth(a, 3))
            }
        },
        RequestParams::Named(m) => {
            let m = m@;
            if m.len() == 0 || m.len() > 4 {
                Err(WatchErrorModel::InvalidFormat(count_message(m.len())))
            } else if named_get(m, "descriptor"@) is None {
                Err(WatchErrorModel::InvalidDescriptor("descriptor is mandatory"@))
            } else if exists|i: int| 0 <= i < m.len() && !allowed_name((#[trigger] m[i]).0@) {
                Err(
                    WatchErrorModel::InvalidFormat(
                        "Invalid named parameter found in request. Allowed named params: ['descriptor', 'change_descriptor', 'birthday', 'gap']"@,
                    ),
                )
            } else {
                read_values(
                    named_get(m, "descriptor"@)->0,
                    named_get(m, "change_descriptor"@),
                    named_get(m, "birthday"@),
                    named_get(m, "gap"@),
                )
            }
        },
        RequestParams::Other(t) => Err(
            WatchErrorModel::InvalidFormat(
                "Unexpected request format. Expected: <descriptor>, [change_descriptor, birthday, gap], either as ordered or keyword args. Received: '"@
                    + t@ + "'"@,
            ),
        ),
    }
}

/// Whether the parameters fail the checks of [`DescriptorWallet::new`].
pub open spec fn args_invalid(a: ArgsModel) -> bool {
    (a.change_descriptor is Some && a.change_descriptor->0.len() == 0) || (a.birthday is Some
        && a.birthday->0 > u32::MAX) || (a.gap is Some && a.gap->0 > u32::MAX / 2)
}

fn named_lookup<'a>(m: &'a Vec<(String, Param)>, key: &str) -> (r: Option<&'a Param>)
    ensures
        match named_get(m@, key@) {
            None => r is None,
            Some(p) => r is Some && *r->0 == p,
        },
{
    let mut i: usize = 0;
    assert(m@.subrange(0, m@.len() as int) =~= m@);
    while i < m.len()
        invariant
            i <= m@.len(),
            named_get(m@, key@) == named_get(m@.subrange(i as int, m@.len() as int), key@),
        decreases m.len() - i,
    {
        proof {
            let s = m@.subrange(i as int, m@.len() as int);
            assert(s.drop_first() =~= m@.subrange(i + 1, m@.len() as int));
            assert(s[0] == m@[i as int]);
        }
        if same_text(m[i].0.as_str(), key) {
            return Some(&m[i].1);
        }
        i = i + 1;
    }
    None
}

fn all_names_allowed(m: &Vec<(String, Param)>) -> (r: bool)
    ensures
        r == forall|i: int| 0 <= i < m@.len() ==> allowed_name((#[trigger] m@[i]).0@),
{
    let mut i: usize = 0;
    while i < m.len()
        invariant
            i <= m@.len(),
            forall|k: int| 0 <= k < i ==> allowed_name((#[trigger] m@[k]).0@),
        decreases m.len() - i,
    {
        let k = m[i].0.as_str();
        if !(same_text(k, "descriptor") || same_text(k, "change_descriptor") || same_text(
            k,
            "birthday",
        ) || same_text(k, "gap")) {
            return false;
        }
        i = i + 1;
    }
    true
}

fn build(
    d: &Param,
    cd: Option<&Param>,
    b: Option<&Param>,
    g: Option<&Param>,
) -> (r: Result<DescriptorWallet, WatchError>)
    ensures
        match read_values(
            *d,
            match cd {
                Some(p) => Some(*p),
                None => None,
            },
            match b {
                Some(p) => Some(*p),
                None => None,
            },
            match g {
                Some(p) => Some(*p),
                None => None,
            },
        ) {
            Err(e) => r is Err && r->Err_0.model() == e,
            Ok(a) => wallet_from_args(a, r),
        },
{
    let descriptor = match &d.value {
        ParamValue::Text(t) => t.as_str(),
        _ => {
            return Err(WatchError::InvalidDescriptor("descriptor must be a string".to_owned()));
        },
    };
    let change = match cd {
        Some(p) => match &p.value {
            ParamValue::Text(t) => Some(t.as_str()),
            _ => {
                return Err(
                    WatchError::InvalidChangeDescriptor(
                        join2("change_descriptor must be a string. Received: ", p.rendered.as_str()),
                    ),
                );
            },
        },
        None => None,
    };
    let birthday = match b {
        Some(p) => match p.value {
            ParamValue::Number(n) => Some(n),
            _ => {
                return Err(
                    WatchError::InvalidBirthday(
                        join2("birthday must be a number. Received: ", p.rendered.as_str()),
                    ),
                );
            },
        },
        None => None,
    };
    let gap = match g {
        Some(p) => match p.value {
            ParamValue::Number(n) => Some(n),
            _ => {
                return Err(
                    WatchError::InvalidGap(
                        join2("gap must be a number. Received: ", p.rendered.as_str()),
                    ),
                );
            },
        },
        None => None,
    };
    DescriptorWallet::new(descriptor, change, birthday, gap, None)
}

/// `r` is what [`DescriptorWallet::new`] gives for the parameters `a` and no network.
pub open spec fn wallet_from_args(a: ArgsModel, r: Result<DescriptorWallet, WatchError>) -> bool {
    &&& r is Err <==> args_invalid(a)
    &&& r is Err ==> {
        ||| (a.change_descriptor is Some && a.change_descriptor->0.len() == 0 && r->Err_0 is InvalidChangeDescriptor)
        ||| (!(a.change_descriptor is Some && a.change_descriptor->0.len() == 0) && a.birthday is Some
            && a.birthday->0 > u32::MAX && r->Err_0 is InvalidBirthday)
        ||| (!(a.change_descriptor is Some && a.change_descriptor->0.len() == 0) && !(a.birthday is Some
            && a.birthday->0 > u32::MAX) && r->Err_0 is InvalidGap)
    }
    &&& r is Ok ==> {
        let w = r->Ok_0;
        &&& w.descriptor@ == a.descriptor
        &&& w.change_descriptor is Some <==> a.change_descriptor is Some
        &&& w.change_descriptor is Some ==> w.change_descriptor->0@ == a.change_descriptor->0
        &&& w.birthday == match a.birthday {
            Some(b) => Some(b as u32),
            None => None,
        }
        &&& w.gap == match a.gap {
            Some(g) => Some(g as u32),
            None => None,
        }
        &&& w.network is None
        &&& w.last_synced is None
        &&& w.transactions@.len() == 0
    }
}

impl DescriptorWallet {
    /// A new wallet from the parameters of a request: one to four given in
    /// order (descriptor, change descriptor, birthday, gap), or by those names
    /// with the descriptor required.
    pub fn from_params(params: &RequestParams) -> (r: Result<Self, WatchError>)
        ensures
            match read_params(*params) {
                Err(e) => r is Err && r->Err_0.model() == e,
                Ok(a) => wallet_from_args(a, r),
            },
    {
        match params {
            RequestParams::Positional(a) => {
                let n = a.len();
                if n < 1 || n > 4 {
                    let c = decimal_string(n as u64);
                    return Err(
                        WatchError::InvalidFormat(
                            join2(
                                "Unexpected request format. The request needs 1-4 parameters. Received: ",
                                c.as_str(),
                            ),
                        ),
                    );
                }
                let cd = if n > 1 {
                    Some(&a[1])
                } else {
                    None
                };
                let b = if n > 2 {
                    Some(&a[2])
                } else {
                    None
                };
                let g = if n > 3 {
                    Some(&a[3])
                } else {
                    None
                };
                build(&a[0], cd, b, g)
            },
            RequestParams::Named(m) => {
                let n = m.len();
                if n == 0 || n > 4 {
                    let c = decimal_string(n as u64);
                    return Err(
                        WatchError::InvalidFormat(
                            join2(
                                "Unexpected request format. The request needs 1-4 parameters. Received: ",
                                c.as_str(),
                            ),
                        ),
                    );
                }
                let d = match named_lookup(m, "descriptor") {
                    Some(d) => d,
                    None => {
                        return Err(
                            WatchError::InvalidDescriptor("descriptor is mandatory".to_owned()),
                        );
                    },
                };
                if !all_names_allowed(m) {
                    return Err(
                        WatchError::InvalidFormat(
                            "Invalid named parameter found in request. Allowed named params: ['descriptor', 'change_descriptor', 'birthday', 'gap']".to_owned(),
                        ),
                    );
                }
                build(
                    d,
                    named_lookup(m, "change_descriptor"),
                    named_lookup(m, "birthday"),
                    named_lookup(m, "gap"),
                )
            },
            RequestParams::Other(t) => {
                let mut s = join2(
                    "Unexpected request format. Expected: <descriptor>, [change_descriptor, birthday, gap], either as ordered or keyword args. Received: '",
                    t.as_str(),
                );
                s.append("'");
                Err(WatchError::InvalidFormat(s))
            },
        }
    }
}

} // verus!
