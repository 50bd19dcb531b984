//! What the graphics cards report, whether a model fits, and how much of it to
//! offload.
//!
//! The fit is a heuristic: the memory of the weights, an estimate of the
//! key-value cache, and 15% headroom.
use crate::number;
use crate::text;
use vstd::prelude::*;
use vstd::slice::slice_subrange;

verus! {

/// One card and its memory, in MiB, when it was asked.
#[derive(Debug)]
pub struct GpuInfo {
    pub index: u32,
    pub name: String,
    pub total_vram_mb: u64,
    pub free_vram_mb: u64,
}

/// A card as text and numbers.
pub struct GpuView {
    pub index: u32,
    pub name: Seq<char>,
    pub total_vram_mb: u64,
    pub free_vram_mb: u64,
}

impl View for GpuInfo {
    type V = GpuView;

    open spec fn view(&self) -> GpuView {
        GpuView {
            index: self.index,
            name: self.name@,
            total_vram_mb: self.total_vram_mb,
            free_vram_mb: self.free_vram_mb,
        }
    }
}

impl Clone for GpuInfo {
    fn clone(&self) -> (r: Self)
        ensures
            r == *self,
    {
        GpuInfo {
            index: self.index,
            name: self.name.clone(),
            total_vram_mb: self.total_vram_mb,
            free_vram_mb: self.free_vram_mb,
        }
    }
}

/// Cards as text and numbers.
pub open spec fn gpu_views(s: Seq<GpuInfo>) -> Seq<GpuView> {
    s.map_values(|g: GpuInfo| g@)
}

// ------------------------------------------------------------------- reporting

/// The first four fields of a comma-separated line; the fourth takes the rest.
pub open spec fn four_fields(s: Seq<char>) -> Option<(Seq<char>, Seq<char>, Seq<char>, Seq<char>)> {
    match text::char_from(s, ',', 0) {
        Some(a) => {
            let r1 = s.skip(a + 1);
            match text::char_from(r1, ',', 0) {
                Some(b) => {
                    let r2 = r1.skip(b + 1);
                    match text::char_from(r2, ',', 0) {
                        Some(c) => Some((s.take(a), r1.take(b), r2.take(c), r2.skip(c + 1))),
                        None => None,
                    }
                },
                None => None,
            }
        },
        None => None,
    }
}

/// The card that a line of the report describes: its index, its name, its memory
/// and its free memory. A line of another shape describes none.
pub open spec fn gpu_of_line(raw: Seq<char>) -> Option<GpuView> {
    match four_fields(text::trimmed(raw)) {
        Some((index, name, total, free)) => {
            match (
                number::unsigned_of(text::trimmed(index), u32::MAX as nat),
                number::unsigned_of(text::trimmed(total), u64::MAX as nat),
                number::unsigned_of(text::trimmed(free), u64::MAX as nat),
            ) {
                (Some(i), Some(t), Some(f)) => Some(
                    GpuView {
                        index: i as u32,
                        name: text::trimmed(name),
                        total_vram_mb: t as u64,
                        free_vram_mb: f as u64,
                    },
                ),
                _ => None,
            }
        },
        None => None,
    }
}

/// The cards that the lines of a report describe, in order.
pub open spec fn gpus_of_lines(lines: Seq<Seq<char>>) -> Seq<GpuView>
    decreases lines.len(),
{
    if lines.len() == 0 {
        Seq::empty()
    } else {
        let before = gpus_of_lines(lines.drop_last());
        match gpu_of_line(lines.last()) {
            Some(g) => before.push(g),
            None => before,
        }
    }
}

fn split_comma(s: &[char]) -> (r: Option<(&[char], &[char])>)
    ensures
        match r {
            Some((a, b)) => text::char_from(s@, ',', 0) == Some(a@.len() as int) && a@ == s@.take(
                a@.len() as int,
            ) && b@ == s@.skip(a@.len() as int + 1),
            None => text::char_from(s@, ',', 0) is None,
        },
{
    let n: usize = s.len();
    match text::find_char_from(s, ',', 0) {
        Some(i) => {
            let a: &[char] = slice_subrange(s, 0, i);
            let b: &[char] = slice_subrange(s, i + 1, n);
            assert(a@ == s@.take(i as int));
            assert(b@ == s@.skip(i + 1));
            Some((a, b))
        },
        None => None,
    }
}

fn parse_line(raw: &[char]) -> (r: Option<GpuInfo>)
    ensures
        match r {
            Some(g) => gpu_of_line(raw@) == Some(g@),
            None => gpu_of_line(raw@) is None,
        },
{
    let line: &[char] = text::trim(raw);
    let (index, r1) = match split_comma(line) {
        Some(p) => p,
        None => {
            return None;
        },
    };
    let (name, r2) = match split_comma(r1) {
        Some(p) => p,
        None => {
            return None;
        },
    };
    let (total, free) = match split_comma(r2) {
        Some(p) => p,
        None => {
            return None;
        },
    };
    assert(four_fields(line@) == Some((index@, name@, total@, free@)));
    match number::parse_unsigned(text::trim(index), u32::MAX as u64) {
        Some(i) => match number::parse_unsigned(text::trim(total), u64::MAX) {
            Some(t) => match number::parse_unsigned(text::trim(free), u64::MAX) {
                Some(f) => Some(
                    GpuInfo {
                        index: i as u32,
                        name: text::string_of(text::trim(name)),
                        total_vram_mb: t,
                        free_vram_mb: f,
                    },
                ),
                None => None,
            },
            None => None,
        },
        None => None,
    }
}

/// How long an answer of the cards is reused, in milliseconds.
pub const GPU_CACHE_TTL_MS: u64 = 3000;

/// An answer of the cards is still good at the time `now_ms`.
pub open spec fn is_fresh(cached: Option<(u64, Seq<GpuInfo>)>, now_ms: u64) -> bool {
    cached matches Some((at, _)) && now_ms - at < GPU_CACHE_TTL_MS
}

/// The last answer of the cards, with the time in milliseconds at which it came.
#[derive(Debug)]
pub struct VramManager {
    last: Option<(u64, Vec<GpuInfo>)>,
}

impl VramManager {
    /// The last answer and its time.
    pub closed spec fn cached(&self) -> Option<(u64, Seq<GpuInfo>)> {
        match self.last {
            Some((at, gpus)) => Some((at, gpus@)),
            None => None,
        }
    }

    /// Nothing is known of the cards yet.
    pub fn new() -> (r: Self)
        ensures
            r.cached() is None,
    {
        VramManager { last: None }
    }

    /// The last answer, while it is fresh at the time `now_ms`. Without one the
    /// cards have to be asked again.
    pub fn query_gpus(&self, now_ms: u64) -> (r: Option<Vec<GpuInfo>>)
        ensures
            match r {
                Some(gpus) => is_fresh(self.cached(), now_ms) && (self.cached() matches Some(
                    (_, last),
                ) && gpus@ == last),
                None => !is_fresh(self.cached(), now_ms),
            },
    {
        match &self.last {
            Some((at, gpus)) => {
                if now_ms < *at || now_ms - *at < GPU_CACHE_TTL_MS {
                    let copy = gpus.clone();
                    assert(copy@ =~= gpus@);
                    Some(copy)
                } else {
                    None
                }
            },
            None => None,
        }
    }

    /// Keeps an answer that came at `now_ms`.
    pub fn record(&mut self, now_ms: u64, gpus: Vec<GpuInfo>)
        ensures
            final(self).cached() == Some((now_ms, gpus@)),
    {
        self.last = Some((now_ms, gpus));
    }

    /// Reads the cards from the report of `nvidia-smi`. Lines of another shape
    /// are passed over.
    pub fn probe_gpus(report: &str) -> (r: Vec<GpuInfo>)
        ensures
            gpu_views(r@) == gpus_of_lines(text::lines_of(report@)),
    {
        let chars = text::chars_of(report);
        let lines = text::split_lines(chars.as_slice());
        let ghost all = text::texts(lines@);
        let mut out: Vec<GpuInfo> = Vec::new();
        assert(gpu_views(out@) == Seq::<GpuView>::empty());
        assert(all.take(0) == Seq::<Seq<char>>::empty());
        let mut i: usize = 0;
        while i < lines.len()
            invariant
                i <= lines@.len(),
                all == text::texts(lines@),
                gpu_views(out@) == gpus_of_lines(all.take(i as int)),
            decreases lines@.len() - i,
        {
            assert(all.take(i + 1).drop_last() == all.take(i as int));
            assert(all[i as int] == lines@[i as int]@);
            let ghost before = gpu_views(out@);
            if let Some(g) = parse_line(lines[i].as_slice()) {
                let ghost v = g@;
                out.push(g);
                assert(gpu_views(out@) == before.push(v));
            }
            i = i + 1;
        }
        assert(all.take(i as int) == all);
        out
    }
}

/// An answer is reused for three seconds from when it came, and no longer.
pub proof fn law_answer_is_reused_for_three_seconds(gpus: Seq<GpuInfo>, at: u64, now_ms: u64)
    requires
        at <= now_ms,
    ensures
        is_fresh(Some((at, gpus)), now_ms) <==> now_ms < at + 3000,
        !is_fresh(None, now_ms),
{
}

// --------------------------------------------------------------------- fitting

/// The free memory of all cards.
pub open spec fn total_free(gpus: Seq<GpuView>) -> nat
    decreases gpus.len(),
{
    if gpus.len() == 0 {
        0
    } else {
        total_free(gpus.drop_last()) + gpus.last().free_vram_mb as nat
    }
}

/// The memory that a model needs: its weights and its key-value cache.
pub open spec fn needed_mb(weight_mb: u64, context_length: u32) -> nat {
    (weight_mb + context_length as nat * 64 / 1024) as nat
}

/// A model fits where the free memory of all cards covers what it needs and 15%
/// more.
pub open spec fn fits(weight_mb: u64, context_length: u32, gpus: Seq<GpuView>) -> bool {
    total_free(gpus) >= needed_mb(weight_mb, context_length) * 115 / 100
}

fn sum_free(gpus: &[GpuInfo]) -> (r: u128)
    ensures
        r == total_free(gpu_views(gpus@)),
        r <= gpus@.len() * u64::MAX,
{
    let ghost all = gpu_views(gpus@);
    let n: usize = gpus.len();
    let mut sum: u128 = 0;
    let mut i: usize = 0;
    assert(all.take(0) == Seq::<GpuView>::empty());
    while i < n
        invariant
            n == gpus@.len(),
            i <= n,
            all == gpu_views(gpus@),
            sum == total_free(all.take(i as int)),
            sum <= i * u64::MAX,
        decreases n - i,
    {
        assert(all.take(i + 1).drop_last() == all.take(i as int));
        assert(i * u64::MAX + u64::MAX == (i + 1) * u64::MAX) by (nonlinear_arith);
        assert((i + 1) * u64::MAX <= u64::MAX * u64::MAX) by (nonlinear_arith)
            requires
                i + 1 <= u64::MAX,
        ;
        sum = sum + gpus[i].free_vram_mb as u128;
        i = i + 1;
    }
    assert(all.take(i as int) == all);
    sum
}

impl VramManager {
    /// The memory in MiB that a model needs, given that of its weights: a crude
    /// estimate, good enough to decide where it runs.
    pub fn estimate_model_vram_mb(weight_mb: u64, context_length: u32) -> (r: u128)
        ensures
            r == needed_mb(weight_mb, context_length),
    {
        weight_mb as u128 + context_length as u128 * 64 / 1024
    }

    /// Whether a model can plausibly fit across the cards.
    pub fn can_fit(weight_mb: u64, context_length: u32, gpus: &[GpuInfo]) -> (r: bool)
        ensures
            r == fits(weight_mb, context_length, gpu_views(gpus@)),
    {
        let free: u128 = sum_free(gpus);
        let required: u128 = VramManager::estimate_model_vram_mb(weight_mb, context_length) * 115
            / 100;
        free >= required
    }

    /// An estimate of a model's layers from its parameter count in billions,
    /// given as the bit pattern of a 32-bit float.
    pub fn estimate_layer_count(parameters_billion_bits: u32) -> (r: u32)
        ensures
            r == layer_count(parameters_billion_bits),
    {
        let p: u32 = parameters_billion_bits;
        let magnitude: u32 = if p >= 0x8000_0000 {
            p - 0x8000_0000
        } else {
            p
        };
        if magnitude > 0x7f80_0000 {
            96
        } else if p >= 0x8000_0000 || p <= 0x4000_0000 {
            24
        } else if p <= 0x4110_0000 {
            32
        } else if p <= 0x4170_0000 {
            40
        } else if p <= 0x420c_0000 {
            60
        } else if p <= 0x42a0_0000 {
            80
        } else {
            96
        }
    }

    /// How many layers to put on the cards: none without a card, all (999) where
    /// the model fits, and otherwise as many as nine tenths of the free memory
    /// hold.
    pub fn recommend_gpu_layers(
        weight_mb: u64,
        context_length: u32,
        parameters_billion_bits: u32,
        gpus: &[GpuInfo],
    ) -> (r: u32)
        ensures
            r == recommended_layers(
                weight_mb,
                context_length,
                parameters_billion_bits,
                gpu_views(gpus@),
            ),
    {
        if gpus.len() == 0 {
            return 0;
        }
        if VramManager::can_fit(weight_mb, context_length, gpus) {
            return 999;
        }
        let free: u128 = sum_free(gpus);
        assert(free * 9 <= u128::MAX) by {
            let need = needed_mb(weight_mb, context_length);
            assert(free < need * 115 / 100);
            assert(need <= u64::MAX + u32::MAX);
        }
        let layers: u32 = VramManager::estimate_layer_count(parameters_billion_bits);
        let share: u64 = weight_mb / (layers as u64);
        let per_layer: u64 = if share < 1 {
            1
        } else {
            share
        };
        let budget: u128 = free * 9 / 10;
        let fit: u128 = budget / (per_layer as u128);
        if fit < layers as u128 {
            fit as u32
        } else {
            layers
        }
    }
}

/// The bit pattern of a 32-bit float that is not a number.
pub open spec fn is_nan_bits(p: u32) -> bool {
    0x7f80_0000 < p < 0x8000_0000 || 0xff80_0000 < p
}

/// Whether the float `p` is at most the positive float `bound`: the bit patterns
/// of positive floats are in the order of the floats.
pub open spec fn float_at_most(p: u32, bound: u32) -> bool {
    !is_nan_bits(p) && (p >= 0x8000_0000 || p <= bound)
}

/// The estimated layers of a model of `p` billion parameters: 24 up to 2, 32 up
/// to 9, 40 up to 15, 60 up to 35, 80 up to 80, else 96.
pub open spec fn layer_count(p: u32) -> u32 {
    if float_at_most(p, 0x4000_0000) {
        24
    } else if float_at_most(p, 0x4110_0000) {
        32
    } else if float_at_most(p, 0x4170_0000) {
        40
    } else if float_at_most(p, 0x420c_0000) {
        60
    } else if float_at_most(p, 0x42a0_0000) {
        80
    } else {
        96
    }
}

/// How many layers to put on the cards.
pub open spec fn recommended_layers(
    weight_mb: u64,
    context_length: u32,
    p: u32,
    gpus: Seq<GpuView>,
) -> int {
    if gpus.len() == 0 {
        0
    } else if fits(weight_mb, context_length, gpus) {
        999
    } else {
        let layers = layer_count(p) as int;
        let share = weight_mb as int / layers;
        let per_layer = if share < 1 {
            1
        } else {
            share
        };
        let fit = (total_free(gpus) * 9 / 10) as int / per_layer;
        if fit < layers {
            fit
        } else {
            layers
        }
    }
}

/// A larger model is never estimated to have fewer layers.
pub proof fn law_layers_grow_with_size(p: u32, q: u32)
    requires
        p <= q <= 0x7f80_0000,
    ensures
        layer_count(p) <= layer_count(q),
{
}

/// Without a card nothing is offloaded; a model that fits is offloaded whole;
/// another never by more than its layers.
pub proof fn law_offload_is_bounded(
    weight_mb: u64,
    context_length: u32,
    p: u32,
    gpus: Seq<GpuView>,
)
    ensures
        gpus.len() == 0 ==> recommended_layers(weight_mb, context_length, p, gpus) == 0,
        gpus.len() > 0 && fits(weight_mb, context_length, gpus) ==> recommended_layers(
            weight_mb,
            context_length,
            p,
            gpus,
        ) == 999,
        gpus.len() > 0 && !fits(weight_mb, context_length, gpus) ==> recommended_layers(
            weight_mb,
            context_length,
            p,
            gpus,
        ) <= layer_count(p),
{
}

/// More free memory never makes a model stop fitting.
pub proof fn law_fit_is_monotone(
    weight_mb: u64,
    context_length: u32,
    gpus: Seq<GpuView>,
    more: GpuView,
)
    requires
        fits(weight_mb, context_length, gpus),
    ensures
        fits(weight_mb, context_length, gpus.push(more)),
{
    assert(gpus.push(more).drop_last() == gpus);
}

/// A model fits exactly where the free memory covers its weights and a sixteenth of
/// its context length in MiB, with 15% on top.
pub proof fn law_fit_is_room_and_headroom(weight_mb: u64, context_length: u32, gpus: Seq<GpuView>)
    ensures
        fits(weight_mb, context_length, gpus) <==> (total_free(gpus) + 1) * 100 > (weight_mb
            + context_length as int / 16) * 115,
{
    assert(context_length as nat * 64 / 1024 == context_length as nat / 16);
}

/// The free memory of cards adds up, card by card.
pub proof fn law_free_memory_adds_up(a: Seq<GpuView>, b: Seq<GpuView>, g: GpuView)
    ensures
        total_free(Seq::empty()) == 0,
        total_free(seq![g]) == g.free_vram_mb,
        total_free(a + b) == total_free(a) + total_free(b),
    decreases b.len(),
{
    assert(seq![g].drop_last() =~= Seq::<GpuView>::empty());
    if b.len() == 0 {
        assert(a + b =~= a);
    } else {
        assert((a + b).drop_last() =~= a + b.drop_last());
        assert((a + b).last() == b.last());
        law_free_memory_adds_up(a, b.drop_last(), g);
    }
}

/// What is offloaded of a model that does not fit: as many layers as fit in nine tenths
/// of the free memory, each of its share of the weights, and no more than there are.
pub proof fn law_offload_uses_nine_tenths(
    weight_mb: u64,
    context_length: u32,
    p: u32,
    gpus: Seq<GpuView>,
)
    requires
        gpus.len() > 0,
        !fits(weight_mb, context_length, gpus),
        weight_mb as int >= layer_count(p),
    ensures
        ({
            let n = recommended_layers(weight_mb, context_length, p, gpus);
            let share = weight_mb as int / layer_count(p) as int;
            &&& 0 <= n <= layer_count(p)
            &&& n * share <= total_free(gpus) * 9 / 10
            &&& n < layer_count(p) ==> (n + 1) * share > total_free(gpus) * 9 / 10
        }),
{
    let layers = layer_count(p) as int;
    let share = weight_mb as int / layers;
    assert(share >= 1) by (nonlinear_arith)
        requires
            layers > 0,
            weight_mb as int >= layers,
            share == weight_mb as int / layers,
    ;
    let free = (total_free(gpus) * 9 / 10) as int;
    let fit = free / share;
    assert(fit * share <= free && (fit + 1) * share > free && fit >= 0) by (nonlinear_arith)
        requires
            share >= 1,
            free >= 0,
            fit == free / share,
    ;
    if fit >= layers {
        assert(layers * share <= fit * share) by (nonlinear_arith)
            requires
                fit >= layers,
                share >= 1,
        ;
    }
}

/// The layers of a model by its size: 24 up to 2 billion parameters, 32 up to 9, 40 up
/// to 15, 60 up to 35, 80 up to 80, and 96 beyond. The bounds are the bit patterns of
/// these numbers as floats.
pub proof fn law_layers_by_size(p: u32)
    requires
        p <= 0x7f80_0000,
    ensures
        layer_count(p) == 24 <==> p <= 0x4000_0000,
        layer_count(p) == 32 <==> 0x4000_0000 < p <= 0x4110_0000,
        layer_count(p) == 40 <==> 0x4110_0000 < p <= 0x4170_0000,
        layer_count(p) == 60 <==> 0x4170_0000 < p <= 0x420c_0000,
        layer_count(p) == 80 <==> 0x420c_0000 < p <= 0x42a0_0000,
        layer_count(p) == 96 <==> 0x42a0_0000 < p,
{
}

proof fn lemma_field_ends_at_its_comma(field: Seq<char>, rest: Seq<char>)
    requires
        !field.contains(','),
    ensures
        ({
            let s = field + seq![','] + rest;
            &&& text::char_from(s, ',', 0) == Some(field.len() as int)
            &&& s.take(field.len() as int) == field
            &&& s.skip(field.len() as int + 1) == rest
        }),
{
    let s = field + seq![','] + rest;
    assert forall|j: int| 0 <= j < field.len() implies s[j] != ',' by {
        assert(s[j] == field[j]);
    }
    assert(s[field.len() as int] == ',');
    crate::text_laws::lemma_char_is_at(s, ',', 0, field.len() as int);
    assert(s.take(field.len() as int) =~= field);
    assert(s.skip(field.len() as int + 1) =~= rest);
}

proof fn lemma_digits_hold_no_comma(s: Seq<char>)
    requires
        s.len() > 0,
        number::all_digits(s),
    ensures
        !s.contains(','),
        !(" "@ + s).contains(','),
        crate::text_laws::is_tight(s),
        text::trimmed(s) == s,
        text::trimmed(" "@ + s) == s,
{
    reveal_strlit(" ");
    let t = " "@ + s;
    let none = Seq::<char>::empty();
    assert forall|j: int| 0 <= j < s.len() implies s[j] != ',' by {
        assert(number::is_digit(s[j]));
    }
    assert forall|j: int| 0 <= j < t.len() implies t[j] != ',' by {
        if j > 0 {
            assert(t[j] == s[j - 1]);
        }
    }
    lemma_digits_are_tight(s);
    crate::text_laws::lemma_tight_is_trimmed(s);
    assert(" "@ + s + none =~= t);
    crate::text_laws::law_trimming_gives_the_core(" "@, s, none);
}

/// A card that reports itself is read as it reports itself: its index, its name, its
/// memory and its free memory, parted by commas.
#[verifier::spinoff_prover]
#[verifier::rlimit(40)]
pub proof fn law_reported_card_is_read(index: u32, name: Seq<char>, total: u64, free: u64)
    requires
        name.len() > 0,
        crate::text_laws::is_tight(name),
        !name.contains(','),
    ensures
        gpu_of_line(
            number::decimal(index as nat) + ", "@ + name + ", "@ + number::decimal(total as nat)
                + ", "@ + number::decimal(free as nat),
        ) == Some(GpuView { index, name, total_vram_mb: total, free_vram_mb: free }),
{
    let i = number::decimal(index as nat);
    let t = number::decimal(total as nat);
    let f = number::decimal(free as nat);
    reveal_strlit(", ");
    reveal_strlit(" ");
    let none = Seq::<char>::empty();
    let r3 = " "@ + f;
    let r2 = " "@ + t + seq![','] + r3;
    let r1 = " "@ + name + seq![','] + r2;
    let s = i + seq![','] + r1;
    assert(i + ", "@ + name + ", "@ + t + ", "@ + f =~= s);
    number::lemma_decimal_digits(index as nat);
    number::lemma_decimal_digits(total as nat);
    number::lemma_decimal_digits(free as nat);
    number::law_decimal_round_trips(index as nat, u32::MAX as nat);
    number::law_decimal_round_trips(total as nat, u64::MAX as nat);
    number::law_decimal_round_trips(free as nat, u64::MAX as nat);
    lemma_digits_hold_no_comma(i);
    lemma_digits_hold_no_comma(t);
    lemma_digits_hold_no_comma(f);
    assert(s[0] == i[0]);
    assert(s.last() == f.last());
    crate::text_laws::lemma_tight_is_trimmed(s);
    let n = " "@ + name;
    assert forall|j: int| 0 <= j < n.len() implies n[j] != ',' by {
        if j > 0 {
            assert(n[j] == name[j - 1]);
            assert(name.contains(name[j - 1]));
        }
    }
    lemma_field_ends_at_its_comma(i, r1);
    lemma_field_ends_at_its_comma(n, r2);
    lemma_field_ends_at_its_comma(" "@ + t, r3);
    assert(" "@ + name + none =~= n);
    crate::text_laws::law_trimming_gives_the_core(" "@, name, none);
}

proof fn lemma_digits_are_tight(s: Seq<char>)
    requires
        s.len() > 0,
        number::all_digits(s),
    ensures
        crate::text_laws::is_tight(s),
{
    assert(number::is_digit(s[0]));
    assert(number::is_digit(s[s.len() - 1]));
}

/// Cards are read line by line: those of two reports one after the other are those of
/// the first, then those of the second.
pub proof fn law_cards_are_read_line_by_line(a: Seq<Seq<char>>, b: Seq<Seq<char>>)
    ensures
        gpus_of_lines(a + b) == gpus_of_lines(a) + gpus_of_lines(b),
        b.len() == 1 ==> gpus_of_lines(b) == (match gpu_of_line(b[0]) {
            Some(g) => seq![g],
            None => Seq::empty(),
        }),
    decreases b.len(),
{
    if b.len() == 0 {
        assert(a + b =~= a);
        assert(gpus_of_lines(a) + Seq::<GpuView>::empty() =~= gpus_of_lines(a));
    } else {
        assert((a + b).drop_last() =~= a + b.drop_last());
        assert((a + b).last() == b.last());
        law_cards_are_read_line_by_line(a, b.drop_last());
        assert(gpus_of_lines(a + b) =~= gpus_of_lines(a) + gpus_of_lines(b));
        if b.len() == 1 {
            assert(b.drop_last() =~= Seq::<Seq<char>>::empty());
            assert(gpus_of_lines(b) =~= (match gpu_of_line(b[0]) {
                Some(g) => seq![g],
                None => Seq::empty(),
            }));
        }
    }
}

/// An answer of the cards is good for less than three seconds, whatever it says.
pub proof fn law_answer_is_good_for_its_time(at: u64, gpus: Seq<GpuInfo>, now_ms: u64)
    ensures
        is_fresh(Some((at, gpus)), now_ms) <==> now_ms - at < 3000,
        !is_fresh(None, now_ms),
{
}

} // verus!
