//! The kind of network that produced a file, as its metadata tells it.

use vstd::prelude::*;
use crate::InspectorError;
use crate::text::{chars_of, spells, split_on};

verus! {


/// The training module named in the metadata.
#[derive(Debug, Clone, Copy, PartialEq, Eq, Structural)]
pub enum NetworkModule {
    KohyaSSLoRA,
    KohyaSSLoRAFlux,
    KohyaSSLoRALumina,
    KohyaSSLoRASD3,
    KohyaSSLoRAFA,
    KohyaSSDyLoRA,
    KohyaSSOFT,
    Lycoris,
}

/// The reconstruction algorithm of a file.
#[derive(Debug, Clone, Copy, PartialEq, Eq, Structural)]
pub enum NetworkType {
    LoRA,
    LoRAFA,
    LoCon,
    LoHA,
    LoKr,
    IA3,
    DyLoRA,
    GLoRA,
    GLoKr,
    DiagOFT,
    BOFT,
    OFT,
}

/// Whether the weights carry a separate magnitude (weight decomposition).
#[derive(Debug, Clone, Copy, PartialEq, Eq, Structural)]
pub enum WeightDecomposition {
    DoRA,
    /// No separate magnitude.
    Plain,
}

/// A member of the network arguments, by the kind of its JSON value.
#[derive(Debug, Clone)]
pub enum ArgValue {
    Absent,
    Null,
    Text(String),
    Other,
}

/// The network arguments that the classification and the reports read.
#[derive(Debug, Clone)]
pub struct NetworkArgs {
    pub algo: Option<String>,
    pub conv_dim: Option<usize>,
    pub block_dims: Option<BlockUsizeSeq>,
    pub block_alphas: Option<BlockUsizeSeq>,
    pub use_cp: Option<bool>,
    pub rescale: Option<bool>,
    pub dora_wd: Option<bool>,
    pub rs_lora: Option<bool>,
    pub rank_stabilized: Option<bool>,
}

/// The module that a metadata value names.
pub open spec fn module_spec(s: Seq<char>) -> Option<NetworkModule> {
    if s == "networks.lora"@ {
        Some(NetworkModule::KohyaSSLoRA)
    } else if s == "networks.lora_flux"@ {
        Some(NetworkModule::KohyaSSLoRAFlux)
    } else if s == "networks.lora_lumina"@ {
        Some(NetworkModule::KohyaSSLoRALumina)
    } else if s == "networks.lora_sd3"@ {
        Some(NetworkModule::KohyaSSLoRASD3)
    } else if s == "networks.lora_fa"@ {
        Some(NetworkModule::KohyaSSLoRAFA)
    } else if s == "networks.dylora"@ {
        Some(NetworkModule::KohyaSSDyLoRA)
    } else if s == "networks.oft"@ {
        Some(NetworkModule::KohyaSSOFT)
    } else if s == "lycoris.kohya"@ {
        Some(NetworkModule::Lycoris)
    } else {
        None
    }
}

/// The module that a metadata value names, if it is one this library knows.
pub fn network_module_of(s: &str) -> (r: Option<NetworkModule>)
    ensures
        r == module_spec(s@),
{
    let c = chars_of(s);
    if spells(&c, "networks.lora") {
        Some(NetworkModule::KohyaSSLoRA)
    } else if spells(&c, "networks.lora_flux") {
        Some(NetworkModule::KohyaSSLoRAFlux)
    } else if spells(&c, "networks.lora_lumina") {
        Some(NetworkModule::KohyaSSLoRALumina)
    } else if spells(&c, "networks.lora_sd3") {
        Some(NetworkModule::KohyaSSLoRASD3)
    } else if spells(&c, "networks.lora_fa") {
        Some(NetworkModule::KohyaSSLoRAFA)
    } else if spells(&c, "networks.dylora") {
        Some(NetworkModule::KohyaSSDyLoRA)
    } else if spells(&c, "networks.oft") {
        Some(NetworkModule::KohyaSSOFT)
    } else if spells(&c, "lycoris.kohya") {
        Some(NetworkModule::Lycoris)
    } else {
        None
    }
}

/// The algorithm that a decomposition-library `algo` names; `None` for an unknown name.
pub open spec fn algo_spec(a: Seq<char>) -> Option<NetworkType> {
    if a == "diag-oft"@ {
        Some(NetworkType::DiagOFT)
    } else if a == "boft"@ {
        Some(NetworkType::BOFT)
    } else if a == "loha"@ {
        Some(NetworkType::LoHA)
    } else if a == "lokr"@ {
        Some(NetworkType::LoKr)
    } else if a == "glora"@ {
        Some(NetworkType::GLoRA)
    } else if a == "glokr"@ {
        Some(NetworkType::GLoKr)
    } else if a == "locon"@ {
        Some(NetworkType::LoCon)
    } else if a == "lora"@ {
        Some(NetworkType::LoRA)
    } else {
        None
    }
}

/// The algorithm that a decomposition-library `algo` names, if it is one this library knows.
pub fn algo_type(a: &str) -> (r: Option<NetworkType>)
    ensures
        r == algo_spec(a@),
{
    let c = chars_of(a);
    if spells(&c, "diag-oft") {
        Some(NetworkType::DiagOFT)
    } else if spells(&c, "boft") {
        Some(NetworkType::BOFT)
    } else if spells(&c, "loha") {
        Some(NetworkType::LoHA)
    } else if spells(&c, "lokr") {
        Some(NetworkType::LoKr)
    } else if spells(&c, "glora") {
        Some(NetworkType::GLoRA)
    } else if spells(&c, "glokr") {
        Some(NetworkType::GLoKr)
    } else if spells(&c, "locon") {
        Some(NetworkType::LoCon)
    } else if spells(&c, "lora") {
        Some(NetworkType::LoRA)
    } else {
        None
    }
}

/// The network type of a file from its module and its arguments: `Err` carries an algorithm
/// name that the decomposition library's module does not know.
pub open spec fn network_type_spec(module: Option<NetworkModule>, algo: Option<Option<Seq<char>>>) -> Result<Option<NetworkType>, Seq<char>> {
    match module {
        None => Ok(None),
        Some(NetworkModule::Lycoris) => match algo {
            None => Ok(None),
            Some(None) => Ok(Some(NetworkType::LoRA)),
            Some(Some(a)) => match algo_spec(a) {
                Some(t) => Ok(Some(t)),
                None => Err(a),
            },
        },
        Some(NetworkModule::KohyaSSLoRAFA) => Ok(Some(NetworkType::LoRAFA)),
        Some(NetworkModule::KohyaSSDyLoRA) => Ok(Some(NetworkType::DyLoRA)),
        Some(NetworkModule::KohyaSSOFT) => Ok(Some(NetworkType::OFT)),
        Some(_) => Ok(Some(NetworkType::LoRA)),
    }
}

/// The `algo` argument, when there are arguments.
pub open spec fn algo_of(args: Option<NetworkArgs>) -> Option<Option<Seq<char>>> {
    match args {
        None => None,
        Some(a) => match a.algo {
            None => Some(None),
            Some(s) => Some(Some(s@)),
        },
    }
}

/// The network type of a file from its module and its parsed arguments. The conventional
/// modules rebuild as plain low-rank weights whatever their arguments say.
pub fn network_type_of(module: Option<NetworkModule>, args: &Option<NetworkArgs>) -> (r: Result<
    Option<NetworkType>,
    InspectorError,
>)
    ensures
        match network_type_spec(module, algo_of(*args)) {
            Ok(t) => r == Ok::<Option<NetworkType>, InspectorError>(t),
            Err(a) => r matches Err(InspectorError::UnrecognizedAlgorithm(s)) && s@ == a,
        },
{
    match module {
        None => Ok(None),
        Some(NetworkModule::Lycoris) => match args {
            None => Ok(None),
            Some(a) => match &a.algo {
                None => Ok(Some(NetworkType::LoRA)),
                Some(s) => match algo_type(s.as_str()) {
                    Some(t) => Ok(Some(t)),
                    None => Err(InspectorError::UnrecognizedAlgorithm(s.clone())),
                },
            },
        },
        Some(NetworkModule::KohyaSSLoRAFA) => Ok(Some(NetworkType::LoRAFA)),
        Some(NetworkModule::KohyaSSDyLoRA) => Ok(Some(NetworkType::DyLoRA)),
        Some(NetworkModule::KohyaSSOFT) => Ok(Some(NetworkType::OFT)),
        Some(_) => Ok(Some(NetworkType::LoRA)),
    }
}

/// The value of a text of decimal digits.
pub open spec fn digits_value(s: Seq<char>) -> int
    decreases s.len(),
{
    if s.len() == 0 {
        0
    } else {
        digits_value(s.drop_last()) * 10 + (s.last() as int - '0' as int)
    }
}

/// Every character is a decimal digit.
pub open spec fn all_digits(s: Seq<char>) -> bool {
    forall|i: int| 0 <= i < s.len() ==> '0' <= #[trigger] s[i] <= '9'
}

/// The digits of an unsigned integer's text: the text without a leading `+`.
pub open spec fn unsigned_digits(s: Seq<char>) -> Seq<char> {
    if s.len() > 0 && s[0] == '+' {
        s.drop_first()
    } else {
        s
    }
}

/// The unsigned integer that a text spells as std's integer parser reads it: an optional `+`,
/// then at least one decimal digit, and a value that fits.
pub open spec fn usize_spec(s: Seq<char>) -> Option<usize> {
    let d = unsigned_digits(s);
    if d.len() > 0 && all_digits(d) && digits_value(d) <= usize::MAX {
        Some(digits_value(d) as usize)
    } else {
        None
    }
}

proof fn lemma_digits_grow(s: Seq<char>, i: int)
    requires
        all_digits(s),
        0 <= i <= s.len(),
    ensures
        digits_value(s.subrange(0, i)) <= digits_value(s),
        0 <= digits_value(s.subrange(0, i)),
    decreases s.len() - i,
{
    if i < s.len() {
        lemma_digits_grow(s, i + 1);
        let p = s.subrange(0, i + 1);
        assert(p.drop_last() =~= s.subrange(0, i));
        assert('0' <= s[i] <= '9');
    } else {
        assert(s.subrange(0, i) =~= s);
        lemma_digits_nonneg(s);
    }
}

proof fn lemma_digits_nonneg(s: Seq<char>)
    requires
        all_digits(s),
    ensures
        0 <= digits_value(s),
    decreases s.len(),
{
    if s.len() > 0 {
        assert(all_digits(s.drop_last()));
        assert('0' <= s[s.len() - 1] <= '9');
        lemma_digits_nonneg(s.drop_last());
    }
}

/// The unsigned integer that a text spells.
pub fn parse_usize(s: &str) -> (r: Option<usize>)
    ensures
        r == usize_spec(s@),
{
    let c = chars_of(s);
    let n = c.len();
    let start: usize = if n > 0 && c[0] == '+' {
        1
    } else {
        0
    };
    let ghost d = unsigned_digits(s@);
    assert(c@.subrange(start as int, n as int) =~= d);
    if start == n {
        return None;
    }
    let mut v: usize = 0;
    let mut i: usize = start;
    assert(c@.subrange(start as int, start as int) =~= Seq::<char>::empty());
    while i < n
        invariant
            c@ == s@,
            n == c@.len(),
            start <= i <= n,
            d == c@.subrange(start as int, n as int),
            d == unsigned_digits(s@),
            all_digits(c@.subrange(start as int, i as int)),
            v == digits_value(c@.subrange(start as int, i as int)),
        decreases n - i,
    {
        let ch = c[i];
        let ghost p = c@.subrange(start as int, i + 1);
        assert(p.drop_last() =~= c@.subrange(start as int, i as int));
        if ch < '0' || ch > '9' {
            assert(d[i - start] == ch);
            assert(!all_digits(d));
            assert(usize_spec(s@) is None);
            return None;
        }
        assert(all_digits(p));
        let digit = (ch as u32 - '0' as u32) as usize;
        let next = match v.checked_mul(10) {
            Some(t) => t.checked_add(digit),
            None => None,
        };
        match next {
            Some(t) => {
                v = t;
            },
            None => {
                proof {
                    assert(p.last() == ch);
                    assert(digits_value(p) == v * 10 + digit);
                    assert(v * 10 + digit > usize::MAX);
                    if all_digits(d) {
                        lemma_digits_grow(d, i + 1 - start);
                        assert(d.subrange(0, i + 1 - start) =~= p);
                    }
                }
                assert(usize_spec(s@) is None);
                return None;
            },
        }
        i = i + 1;
    }
    Some(v)
}

/// A block-wise list of counts could not be read.
#[derive(Debug, Clone, Copy, PartialEq, Eq, Structural)]
pub struct ParseSeqError;

/// Counts given block by block, written as decimal texts separated by commas.
#[derive(Debug, Clone)]
pub struct BlockUsizeSeq(pub Vec<usize>);

/// The counts that a comma-separated text spells; `None` when a piece is not a count.
pub open spec fn usize_list_spec(s: Seq<char>) -> Option<Seq<usize>> {
    let parts = split_on(s, ',');
    if forall|i: int| 0 <= i < parts.len() ==> (#[trigger] usize_spec(parts[i])) is Some {
        Some(Seq::new(parts.len(), |i: int| usize_spec(parts[i])->0))
    } else {
        None
    }
}

impl BlockUsizeSeq {
    /// The counts that a comma-separated text spells.
    pub fn parse(s: &str) -> (r: Result<BlockUsizeSeq, ParseSeqError>)
        ensures
            match usize_list_spec(s@) {
                Some(v) => r matches Ok(b) && b.0@ == v,
                None => r is Err,
            },
    {
        let chars = chars_of(s);
        let n = chars.len();
        let mut pieces: Vec<Option<usize>> = Vec::new();
        let ghost mut done: Seq<Seq<char>> = Seq::empty();
        let mut start: usize = 0;
        let mut i: usize = 0;
        assert(chars@.subrange(0, 0) =~= Seq::<char>::empty());
        assert(split_on(Seq::<char>::empty(), ',') =~= done.push(chars@.subrange(0, 0)));
        while i < n
            invariant
                chars@ == s@,
                n == chars@.len(),
                start <= i <= n,
                split_on(chars@.subrange(0, i as int), ',') == done.push(chars@.subrange(start as int, i as int)),
                pieces@.len() == done.len(),
                forall|j: int| 0 <= j < done.len() ==> pieces@[j] == usize_spec(#[trigger] done[j]),
            decreases n - i,
        {
            let ghost prefix = chars@.subrange(0, i as int);
            let ghost next = chars@.subrange(0, i + 1);
            assert(next.drop_last() =~= prefix);
            assert(next.last() == chars@[i as int]);
            if chars[i] == ',' {
                let piece = s.substring_char(start, i);
                pieces.push(parse_usize(piece));
                proof {
                    done = done.push(chars@.subrange(start as int, i as int));
                    assert(chars@.subrange(i + 1, i + 1) =~= Seq::<char>::empty());
                }
                start = i + 1;
            } else {
                proof {
                    let d = done.push(chars@.subrange(start as int, i as int));
                    assert(chars@.subrange(start as int, i as int).push(chars@[i as int])
                        =~= chars@.subrange(start as int, i + 1));
                    assert(d.update(d.len() - 1, d.last().push(chars@[i as int])) =~= done.push(
                        chars@.subrange(start as int, i + 1),
                    ));
                }
            }
            i = i + 1;
        }
        let piece = s.substring_char(start, n);
        pieces.push(parse_usize(piece));
        let ghost parts = done.push(chars@.subrange(start as int, n as int));
        assert(chars@.subrange(0, n as int) =~= s@);
        assert(split_on(s@, ',') == parts);
        let mut values: Vec<usize> = Vec::new();
        let mut j: usize = 0;
        while j < pieces.len()
            invariant
                split_on(s@, ',') == parts,
                pieces@.len() == parts.len(),
                j <= pieces@.len(),
                forall|k: int| 0 <= k < parts.len() ==> pieces@[k] == usize_spec(#[trigger] parts[k]),
                values@.len() == j,
                forall|k: int| 0 <= k < j ==> (#[trigger] usize_spec(parts[k])) is Some && values@[k] == usize_spec(parts[k])->0,
            decreases pieces.len() - j,
        {
            match pieces[j] {
                Some(v) => values.push(v),
                None => {
                    assert(usize_spec(parts[j as int]) is None);
                    assert(usize_list_spec(s@) is None);
                    return Err(ParseSeqError);
                },
            }
            j = j + 1;
        }
        assert(values@ =~= Seq::new(parts.len(), |k: int| usize_spec(parts[k])->0));
        Ok(BlockUsizeSeq(values))
    }
}

/// What a text-valued argument holds: `None` when it holds neither text nor null.
pub open spec fn text_arg(v: ArgValue) -> Option<Option<String>> {
    match v {
        ArgValue::Absent => Some(None),
        ArgValue::Null => Some(None),
        ArgValue::Text(s) => Some(Some(s)),
        ArgValue::Other => None,
    }
}

/// What a count-valued argument holds: counts are written as decimal texts; `None` when the
/// argument holds anything else.
pub open spec fn count_arg(v: ArgValue) -> Option<Option<usize>> {
    match v {
        ArgValue::Absent => Some(None),
        ArgValue::Text(s) => match usize_spec(s@) {
            Some(n) => Some(Some(n)),
            None => None,
        },
        _ => None,
    }
}

/// What a block-wise list of counts holds: a comma-separated text; `None` when the argument
/// holds anything else or a piece is not a count.
pub open spec fn seq_arg(v: ArgValue) -> Option<Option<Seq<usize>>> {
    match v {
        ArgValue::Absent => Some(None),
        ArgValue::Text(s) => match usize_list_spec(s@) {
            Some(l) => Some(Some(l)),
            None => None,
        },
        _ => None,
    }
}

/// The counts of an optional block-wise list.
pub open spec fn seq_view(b: Option<BlockUsizeSeq>) -> Option<Seq<usize>> {
    match b {
        Some(l) => Some(l.0@),
        None => None,
    }
}

/// Reads a block-wise list of counts.
pub fn read_seq(v: &ArgValue, name: &str) -> (r: Result<Option<BlockUsizeSeq>, InspectorError>)
    ensures
        match seq_arg(*v) {
            Some(t) => r matches Ok(b) && seq_view(b) == t,
            None => r matches Err(InspectorError::InvalidNetworkArg(n)) && n@ == name@,
        },
{
    match v {
        ArgValue::Absent => Ok(None),
        ArgValue::Text(s) => match BlockUsizeSeq::parse(s.as_str()) {
            Ok(b) => Ok(Some(b)),
            Err(_) => Err(invalid(name)),
        },
        _ => Err(invalid(name)),
    }
}

/// What a flag holds: flags are written as the texts `True` and `False`; `None` when the
/// argument holds anything else.
pub open spec fn flag_arg(v: ArgValue) -> Option<Option<bool>> {
    match v {
        ArgValue::Absent => Some(None),
        ArgValue::Text(s) => if s@ == "True"@ {
            Some(Some(true))
        } else if s@ == "False"@ {
            Some(Some(false))
        } else {
            None
        },
        _ => None,
    }
}

fn invalid(name: &str) -> (e: InspectorError)
    ensures
        e matches InspectorError::InvalidNetworkArg(n) && n@ == name@,
{
    InspectorError::InvalidNetworkArg(String::from_str(name))
}

/// Reads a text-valued argument.
pub fn read_text(v: &ArgValue, name: &str) -> (r: Result<Option<String>, InspectorError>)
    ensures
        match text_arg(*v) {
            Some(t) => r == Ok::<Option<String>, InspectorError>(t),
            None => r matches Err(InspectorError::InvalidNetworkArg(n)) && n@ == name@,
        },
{
    match v {
        ArgValue::Absent => Ok(None),
        ArgValue::Null => Ok(None),
        ArgValue::Text(s) => Ok(Some(s.clone())),
        ArgValue::Other => Err(invalid(name)),
    }
}

/// Reads a count written as a decimal text.
pub fn read_count(v: &ArgValue, name: &str) -> (r: Result<Option<usize>, InspectorError>)
    ensures
        match count_arg(*v) {
            Some(t) => r == Ok::<Option<usize>, InspectorError>(t),
            None => r matches Err(InspectorError::InvalidNetworkArg(n)) && n@ == name@,
        },
{
    match v {
        ArgValue::Absent => Ok(None),
        ArgValue::Text(s) => match parse_usize(s.as_str()) {
            Some(n) => Ok(Some(n)),
            None => Err(invalid(name)),
        },
        _ => Err(invalid(name)),
    }
}

/// Reads a flag written as `True` or `False`.
pub fn read_flag(v: &ArgValue, name: &str) -> (r: Result<Option<bool>, InspectorError>)
    ensures
        match flag_arg(*v) {
            Some(t) => r == Ok::<Option<bool>, InspectorError>(t),
            None => r matches Err(InspectorError::InvalidNetworkArg(n)) && n@ == name@,
        },
{
    match v {
        ArgValue::Absent => Ok(None),
        ArgValue::Text(s) => {
            let c = chars_of(s.as_str());
            if spells(&c, "True") {
                Ok(Some(true))
            } else if spells(&c, "False") {
                Ok(Some(false))
            } else {
                Err(invalid(name))
            }
        },
        _ => Err(invalid(name)),
    }
}

/// The arguments' members that this library reads, by the kind of their values.
#[derive(Debug, Clone)]
pub struct ArgMembers {
    pub algo: ArgValue,
    pub conv_dim: ArgValue,
    pub block_dims: ArgValue,
    pub block_alphas: ArgValue,
    pub use_cp: ArgValue,
    pub rescale: ArgValue,
    pub dora_wd: ArgValue,
    pub rs_lora: ArgValue,
    pub rank_stabilized: ArgValue,
}

/// Every member holds a value of its kind.
pub open spec fn members_valid(m: ArgMembers) -> bool {
    &&& text_arg(m.algo) is Some
    &&& count_arg(m.conv_dim) is Some
    &&& seq_arg(m.block_dims) is Some
    &&& seq_arg(m.block_alphas) is Some
    &&& flag_arg(m.use_cp) is Some
    &&& flag_arg(m.rescale) is Some
    &&& flag_arg(m.dora_wd) is Some
    &&& flag_arg(m.rs_lora) is Some
    &&& flag_arg(m.rank_stabilized) is Some
}

/// The `algo` member's text, when it holds one.
pub open spec fn algo_view(m: ArgMembers) -> Option<Seq<char>> {
    match m.algo {
        ArgValue::Text(t) => Some(t@),
        _ => None,
    }
}

/// The arguments hold what the members hold.
pub open spec fn args_from(a: NetworkArgs, m: ArgMembers) -> bool {
    &&& a.algo == text_arg(m.algo)->0
    &&& a.conv_dim == count_arg(m.conv_dim)->0
    &&& seq_view(a.block_dims) == seq_arg(m.block_dims)->0
    &&& seq_view(a.block_alphas) == seq_arg(m.block_alphas)->0
    &&& a.use_cp == flag_arg(m.use_cp)->0
    &&& a.rescale == flag_arg(m.rescale)->0
    &&& a.dora_wd == flag_arg(m.dora_wd)->0
    &&& a.rs_lora == flag_arg(m.rs_lora)->0
    &&& a.rank_stabilized == flag_arg(m.rank_stabilized)->0
}

impl NetworkArgs {
    /// The arguments that the members hold; an `InvalidNetworkArg` naming the first member,
    /// in field order, whose value is not of its kind.
    pub fn from_members(m: &ArgMembers) -> (r: Result<NetworkArgs, InspectorError>)
        ensures
            members_valid(*m) <==> r is Ok,
            r matches Ok(a) ==> args_from(a, *m),
            r matches Err(e) ==> e is InvalidNetworkArg,
    {
        let algo = read_text(&m.algo, "algo")?;
        let conv_dim = read_count(&m.conv_dim, "conv_dim")?;
        let block_dims = read_seq(&m.block_dims, "block_dims")?;
        let block_alphas = read_seq(&m.block_alphas, "block_alphas")?;
        let use_cp = read_flag(&m.use_cp, "use_cp")?;
        let rescale = read_flag(&m.rescale, "rescale")?;
        let dora_wd = read_flag(&m.dora_wd, "dora_wd")?;
        let rs_lora = read_flag(&m.rs_lora, "rs_lora")?;
        let rank_stabilized = read_flag(&m.rank_stabilized, "rank_stabilized")?;
        Ok(NetworkArgs {
            algo,
            conv_dim,
            block_dims,
            block_alphas,
            use_cp,
            rescale,
            dora_wd,
            rs_lora,
            rank_stabilized,
        })
    }

    /// The weight decomposition that the arguments declare.
    pub fn weight_decomposition(&self) -> (r: WeightDecomposition)
        ensures
            r == if self.dora_wd == Some(true) {
                WeightDecomposition::DoRA
            } else {
                WeightDecomposition::Plain
            },
    {
        match self.dora_wd {
            Some(true) => WeightDecomposition::DoRA,
            _ => WeightDecomposition::Plain,
        }
    }

    /// Whether the arguments declare rank-stabilized scaling, under either of its names.
    pub fn rank_stabilized(&self) -> (r: bool)
        ensures
            r == (self.rs_lora == Some(true) || self.rank_stabilized == Some(true)),
    {
        let a = match self.rs_lora {
            Some(b) => b,
            None => false,
        };
        let b = match self.rank_stabilized {
            Some(b) => b,
            None => false,
        };
        a || b
    }
}

/// A member of a JSON object by the kind of its value, as plain values: 0 absent, 1 null,
/// 2 a string (with its text), 3 anything else.
pub open spec fn arg_view(v: ArgValue) -> (nat, Seq<char>) {
    match v {
        ArgValue::Absent => (0, Seq::empty()),
        ArgValue::Null => (1, Seq::empty()),
        ArgValue::Text(t) => (2, t@),
        ArgValue::Other => (3, Seq::empty()),
    }
}

/// What the text `s` is as JSON: 0 not JSON, 1 a JSON document that is not an object, 2 an
/// object.
pub uninterp spec fn json_kind(s: Seq<char>) -> nat;

/// The member `name` of the JSON object `s`, as `arg_view` encodes it.
pub uninterp spec fn json_member(s: Seq<char>, name: Seq<char>) -> (nat, Seq<char>);

/// Relies on serde_json::from_str, then on serde_json::Value::as_object and
/// serde_json::Map::get on the document it read: it fails exactly on text that is not JSON,
/// and otherwise gives the member `name` of an object by the kind of its value.
#[verifier::external_body]
fn read_json_member(s: &str, name: &str) -> (r: Result<Option<ArgValue>, serde_json::Error>)
    ensures
        r is Err <==> json_kind(s@) == 0,
        r matches Ok(None) <==> json_kind(s@) == 1,
        r matches Ok(Some(a)) ==> json_kind(s@) == 2 && json_member(s@, name@) == arg_view(a),
{
    serde_json::from_str::<serde_json::Value>(s).map(|v| v.as_object().map(|o| match o.get(name) {
        None => ArgValue::Absent,
        Some(serde_json::Value::Null) => ArgValue::Null,
        Some(serde_json::Value::String(t)) => ArgValue::Text(t.clone()),
        Some(_) => ArgValue::Other,
    }))
}

/// The members of `m` are those of the JSON object `s`.
pub open spec fn members_of(m: ArgMembers, s: Seq<char>) -> bool {
    &&& json_member(s, "algo"@) == arg_view(m.algo)
    &&& json_member(s, "conv_dim"@) == arg_view(m.conv_dim)
    &&& json_member(s, "block_dims"@) == arg_view(m.block_dims)
    &&& json_member(s, "block_alphas"@) == arg_view(m.block_alphas)
    &&& json_member(s, "use_cp"@) == arg_view(m.use_cp)
    &&& json_member(s, "rescale"@) == arg_view(m.rescale)
    &&& json_member(s, "dora_wd"@) == arg_view(m.dora_wd)
    &&& json_member(s, "rs_lora"@) == arg_view(m.rs_lora)
    &&& json_member(s, "rank_stabilized"@) == arg_view(m.rank_stabilized)
}

fn member(s: &str, name: &str) -> (r: Result<ArgValue, InspectorError>)
    ensures
        json_kind(s@) == 0 ==> r matches Err(InspectorError::Metadata(_)),
        json_kind(s@) == 1 ==> r matches Err(InspectorError::InvalidNetworkArg(_)),
        r matches Ok(a) ==> json_member(s@, name@) == arg_view(a),
        json_kind(s@) == 2 <==> r is Ok,
        r matches Err(e) ==> e is Metadata || e is InvalidNetworkArg,
{
    match read_json_member(s, name) {
        Ok(Some(a)) => Ok(a),
        Ok(None) => Err(invalid("ss_network_args")),
        Err(e) => Err(InspectorError::Metadata(e)),
    }
}

/// The network arguments written as a JSON object: `Metadata` when the text is not JSON,
/// `InvalidNetworkArg` when it is not an object, and otherwise what `from_members` makes of
/// the object's members.
pub fn parse_network_args(s: &str) -> (r: Result<NetworkArgs, InspectorError>)
    ensures
        r matches Err(e) ==> e is Metadata || e is InvalidNetworkArg,
        json_kind(s@) == 0 ==> r matches Err(InspectorError::Metadata(_)),
        json_kind(s@) == 1 ==> r matches Err(InspectorError::InvalidNetworkArg(_)),
        json_kind(s@) == 2 && r is Err ==> r->Err_0 is InvalidNetworkArg,
        json_kind(s@) == 2 ==> exists|m: ArgMembers| members_of(m, s@) && (members_valid(m) <==> r is Ok) && (
            r matches Ok(a) ==> args_from(a, m)),
{
    let algo = member(s, "algo")?;
    let conv_dim = member(s, "conv_dim")?;
    let block_dims = member(s, "block_dims")?;
    let block_alphas = member(s, "block_alphas")?;
    let use_cp = member(s, "use_cp")?;
    let rescale = member(s, "rescale")?;
    let dora_wd = member(s, "dora_wd")?;
    let rs_lora = member(s, "rs_lora")?;
    let rank_stabilized = member(s, "rank_stabilized")?;
    let m = ArgMembers { algo, conv_dim, block_dims, block_alphas, use_cp, rescale, dora_wd, rs_lora, rank_stabilized };
    assert(members_of(m, s@));
    NetworkArgs::from_members(&m)
}

} // verus!
