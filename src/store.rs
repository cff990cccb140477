//! The simulated instrument: a store of named patterns in order of creation,
//! and the driver operations over it.
use vstd::prelude::*;

use crate::status::{get_result, Error, MeasureEventMode, MeasureMode, OperationMode, Res};
use crate::timeline::{
    appended, cycles, effective_step, empty_pattern, replicated, well_formed, Measurement,
    Pattern, PatternView,
};

verus! {

/// The mathematical value of the store: each pattern's name and state, in
/// order of creation.
pub type StoreView = Seq<(Seq<char>, PatternView)>;

/// The simulated instrument. Each name stands at most once in the store.
pub struct TestWgfmu {
    names: Vec<String>,
    patterns: Vec<Pattern>,
}

impl View for TestWgfmu {
    type V = StoreView;

    closed spec fn view(&self) -> StoreView {
        Seq::new(self.names@.len(), |i: int| (self.names@[i]@, self.patterns@[i]@))
    }
}

/// No name stands twice in the store.
pub open spec fn names_unique(st: StoreView) -> bool {
    forall|i: int, j: int| 0 <= i < j < st.len() ==> st[i].0 != st[j].0
}

/// Names are unique and every pattern is well formed.
pub open spec fn store_well_formed(st: StoreView) -> bool {
    &&& names_unique(st)
    &&& forall|i: int| 0 <= i < st.len() ==> well_formed(#[trigger] st[i].1)
}

/// A pattern named `name` stands in the store.
pub open spec fn has_pattern(st: StoreView, name: Seq<char>) -> bool {
    exists|i: int| 0 <= i < st.len() && st[i].0 == name
}

/// The store after the pattern `name` is created empty: one that stands
/// already is reset in place, else a new one comes last.
pub open spec fn created(st: StoreView, name: Seq<char>) -> StoreView {
    if has_pattern(st, name) {
        st.map_values(
            |e: (Seq<char>, PatternView)|
                if e.0 == name {
                    (e.0, empty_pattern())
                } else {
                    e
                },
        )
    } else {
        st.push((name, empty_pattern()))
    }
}

/// The store after a sample is appended to the pattern `name`, if it stands.
pub open spec fn vector_added(st: StoreView, name: Seq<char>, d: int, voltage: i32) -> StoreView {
    st.map_values(
        |e: (Seq<char>, PatternView)|
            if e.0 == name {
                (e.0, appended(e.1, d, voltage))
            } else {
                e
            },
    )
}

/// The store after the pattern `name`, if it stands, is tiled into `count` cycles.
pub open spec fn sequence_added(st: StoreView, name: Seq<char>, count: int) -> StoreView {
    st.map_values(
        |e: (Seq<char>, PatternView)|
            if e.0 == name {
                (e.0, replicated(e.1, count))
            } else {
                e
            },
    )
}

/// Some pattern holds more than one sample.
pub open spec fn has_data(st: StoreView) -> bool {
    exists|i: int| 0 <= i < st.len() && st[i].1.timeline.len() > 1
}

/// Pattern `i` is the first in the store with more than one sample.
pub open spec fn is_selected(st: StoreView, i: int) -> bool {
    &&& 0 <= i < st.len()
    &&& st[i].1.timeline.len() > 1
    &&& forall|j: int| 0 <= j < i ==> st[j].1.timeline.len() <= 1
}

/// A copy of a timeline.
fn copy_timeline(v: &Vec<Measurement>) -> (r: Vec<Measurement>)
    ensures
        r@ == v@,
{
    let mut r: Vec<Measurement> = Vec::new();
    let mut i: usize = 0;
    while i < v.len()
        invariant
            0 <= i <= v.len(),
            r@ == v@.take(i as int),
        decreases v.len() - i,
    {
        r.push(v[i]);
        i = i + 1;
        assert(r@ =~= v@.take(i as int));
    }
    assert(v@.take(i as int) =~= v@);
    r
}

impl TestWgfmu {
    /// The store's invariant.
    pub closed spec fn well_formed(&self) -> bool {
        &&& self.names@.len() == self.patterns@.len()
        &&& store_well_formed(self@)
    }

    /// An instrument with no patterns.
    pub fn new() -> (r: TestWgfmu)
        ensures
            r.well_formed(),
            r@ == Seq::<(Seq<char>, PatternView)>::empty(),
    {
        let r = TestWgfmu { names: Vec::new(), patterns: Vec::new() };
        assert(r@ =~= Seq::<(Seq<char>, PatternView)>::empty());
        r
    }

    /// The position of the pattern `name`, if it stands.
    fn find(&self, name: &String) -> (r: Option<usize>)
        requires
            self.well_formed(),
        ensures
            match r {
                Some(i) => i < self@.len() && self@[i as int].0 == name@,
                None => !has_pattern(self@, name@),
            },
    {
        let mut i: usize = 0;
        while i < self.names.len()
            invariant
                0 <= i <= self.names@.len(),
                self.well_formed(),
                forall|j: int| 0 <= j < i ==> self@[j].0 != name@,
            decreases self.names@.len() - i,
        {
            if self.names[i] == *name {
                return Some(i);
            }
            i = i + 1;
        }
        None
    }

    /// Creates the pattern `pattern` with no samples, discarding any earlier
    /// timeline under that name. The initial voltage is not recorded.
    pub fn create_pattern(&mut self, pattern: &str, init_v: i32) -> (r: Res)
        requires
            old(self).well_formed(),
        ensures
            final(self).well_formed(),
            final(self)@ == created(old(self)@, pattern@),
            r is Ok,
    {
        let name = pattern.to_string();
        assert(name@ == pattern@);
        match self.find(&name) {
            Some(i) => {
                self.patterns.set(i, Pattern::new());
                assert(self@ =~= created(old(self)@, pattern@));
            },
            None => {
                self.names.push(name);
                self.patterns.push(Pattern::new());
                assert(self@ =~= created(old(self)@, pattern@));
            },
        }
        get_result(0)
    }

    /// Appends a sample of `voltage` to the pattern `pattern`, `d_time`
    /// ticks after its end, or `MIN_STEP` ticks when `d_time` is not
    /// positive. Nothing happens when no such pattern stands.
    pub fn add_vector(&mut self, pattern: &str, d_time: i64, voltage: i32) -> (r: Res)
        requires
            old(self).well_formed(),
            forall|i: int|
                0 <= i < old(self)@.len() && #[trigger] old(self)@[i].0 == pattern@
                    ==> old(self)@[i].1.clock + effective_step(d_time as int) <= u64::MAX,
        ensures
            final(self).well_formed(),
            final(self)@ == vector_added(old(self)@, pattern@, d_time as int, voltage),
            r is Ok,
    {
        let name = pattern.to_string();
        match self.find(&name) {
            Some(i) => {
                let mut p = Pattern::new();
                self.patterns.set_and_swap(i, &mut p);
                assert(p@ == old(self)@[i as int].1);
                p.add_vector(d_time, voltage);
                self.patterns.set(i, p);
                assert(self@ =~= vector_added(old(self)@, pattern@, d_time as int, voltage));
            },
            None => {
                assert(self@ =~= vector_added(old(self)@, pattern@, d_time as int, voltage));
            },
        }
        get_result(0)
    }

    /// Tiles the pattern `pattern` into `count` cycles; a count of zero is
    /// taken as one. Nothing happens when no such pattern stands. The channel
    /// is not consulted.
    pub fn add_sequence(&mut self, chan_id: usize, pattern: &str, count: usize) -> (r: Res)
        requires
            old(self).well_formed(),
            forall|i: int|
                0 <= i < old(self)@.len() && #[trigger] old(self)@[i].0 == pattern@ ==> {
                    &&& cycles(count as int) * old(self)@[i].1.clock <= u64::MAX
                    &&& cycles(count as int) * old(self)@[i].1.timeline.len() <= usize::MAX
                },
        ensures
            final(self).well_formed(),
            final(self)@ == sequence_added(old(self)@, pattern@, count as int),
            r is Ok,
    {
        let name = pattern.to_string();
        match self.find(&name) {
            Some(i) => {
                let mut p = Pattern::new();
                self.patterns.set_and_swap(i, &mut p);
                assert(p@ == old(self)@[i as int].1);
                p.replicate(count);
                self.patterns.set(i, p);
                assert(self@ =~= sequence_added(old(self)@, pattern@, count as int));
            },
            None => {
                assert(self@ =~= sequence_added(old(self)@, pattern@, count as int));
            },
        }
        get_result(0)
    }

    /// The captured samples: the timeline of the first pattern, in order of
    /// creation, that holds more than one sample. The channel is not
    /// consulted. Fails with the unidentified error when no pattern holds
    /// more than one sample.
    pub fn get_measure_values(&mut self, chan_id: usize) -> (r: Result<Vec<Measurement>, Error>)
        requires
            old(self).well_formed(),
        ensures
            final(self).well_formed(),
            final(self)@ == old(self)@,
            r is Ok <==> has_data(old(self)@),
            match r {
                Ok(v) => exists|i: int| is_selected(old(self)@, i) && v@ == old(self)@[i].1.timeline,
                Err(e) => e == Error::UnidentifiedError,
            },
    {
        let mut i: usize = 0;
        while i < self.patterns.len()
            invariant
                0 <= i <= self.patterns@.len(),
                self.well_formed(),
                self@ == old(self)@,
                forall|j: int| 0 <= j < i ==> self@[j].1.timeline.len() <= 1,
            decreases self.patterns@.len() - i,
        {
            if self.patterns[i].timeline.len() > 1 {
                assert(is_selected(self@, i as int));
                return Ok(copy_timeline(&self.patterns[i].timeline));
            }
            i = i + 1;
        }
        Err(Error::UnidentifiedError)
    }

    /// Opens a session; the simulator holds no session state.
    pub fn open_session(&mut self, instrument: &str) -> (r: Res)
        ensures
            *final(self) == *old(self),
            r is Ok,
    {
        get_result(0)
    }

    /// Closes the session; the simulator holds no session state.
    pub fn close_session(&mut self) -> (r: Res)
        ensures
            *final(self) == *old(self),
            r is Ok,
    {
        get_result(0)
    }

    /// Discards every pattern.
    pub fn clear(&mut self) -> (r: Res)
        ensures
            final(self).well_formed(),
            final(self)@ == Seq::<(Seq<char>, PatternView)>::empty(),
            r is Ok,
    {
        self.names = Vec::new();
        self.patterns = Vec::new();
        assert(self@ =~= Seq::<(Seq<char>, PatternView)>::empty());
        get_result(0)
    }

    /// Configures a measure event; the simulator records none.
    pub fn set_measure_event(
        &mut self,
        pattern: &str,
        event: &str,
        time: u64,
        points: i32,
        interval: u64,
        average: u64,
        measure_event_mode: MeasureEventMode,
    ) -> (r: Res)
        ensures
            *final(self) == *old(self),
            r is Ok,
    {
        get_result(0)
    }

    /// Sets a sample at an absolute time; the simulator records none.
    pub fn set_vector(&mut self, pattern: &str, time: u64, voltage: i32) -> (r: Res)
        ensures
            *final(self) == *old(self),
            r is Ok,
    {
        get_result(0)
    }

    /// Resets the instrument's channels; the simulator has nothing to reset.
    pub fn initialize(&mut self) -> (r: Res)
        ensures
            *final(self) == *old(self),
            r is Ok,
    {
        get_result(0)
    }

    /// Sets a channel's operation mode; the simulator records none.
    pub fn set_operation_mode(&mut self, chan_id: usize, operation_mode: OperationMode) -> (r: Res)
        ensures
            *final(self) == *old(self),
            r is Ok,
    {
        get_result(0)
    }

    /// Sets a channel's measure mode; the simulator records none.
    pub fn set_measure_mode(&mut self, chan_id: usize, mode: MeasureMode) -> (r: Res)
        ensures
            *final(self) == *old(self),
            r is Ok,
    {
        get_result(0)
    }

    /// A channel's measure mode: always current measurement.
    pub fn get_measure_mode(&mut self, chan_id: i32) -> (r: Result<MeasureMode, Error>)
        ensures
            *final(self) == *old(self),
            r == Ok::<MeasureMode, Error>(MeasureMode::MeasureModeCurrent),
    {
        match get_result(0) {
            Ok(_) => match MeasureMode::from_code(MeasureMode::MeasureModeCurrent.code()) {
                Some(meas_mode) => Ok(meas_mode),
                None => Err(Error::UnidentifiedError),
            },
            Err(err) => Err(err),
        }
    }

    /// A channel's operation mode: always fast IV.
    pub fn get_operation_mode(&mut self, chan_id: i32) -> (r: Result<OperationMode, Error>)
        ensures
            *final(self) == *old(self),
            r == Ok::<OperationMode, Error>(OperationMode::OperationModeFastIV),
    {
        match get_result(0) {
            Ok(_) => match OperationMode::from_code(OperationMode::OperationModeFastIV.code()) {
                Some(op_mode) => Ok(op_mode),
                None => Err(Error::UnidentifiedError),
            },
            Err(err) => Err(err),
        }
    }

    /// Connects a channel; the simulator has no channels to connect.
    pub fn connect(&mut self, chan_id: usize) -> (r: Res)
        ensures
            *final(self) == *old(self),
            r is Ok,
    {
        get_result(0)
    }

    /// Starts the sequencer; the simulator's timelines are already complete.
    pub fn execute(&mut self) -> (r: Res)
        ensures
            *final(self) == *old(self),
            r is Ok,
    {
        get_result(0)
    }

    /// Waits for the sequencer to finish; the simulator finishes at once.
    pub fn wait_until_completed(&mut self) -> (r: Res)
        ensures
            *final(self) == *old(self),
            r is Ok,
    {
        get_result(0)
    }

    /// Calibrates the instrument; the simulator needs none.
    pub fn do_self_calibration(&mut self) -> (r: Res)
        ensures
            *final(self) == *old(self),
            r is Ok,
    {
        Ok(())
    }

    /// The number of patterns in the store.
    pub fn pattern_count(&self) -> (r: usize)
        requires
            self.well_formed(),
        ensures
            r == self@.len(),
    {
        self.names.len()
    }

    /// A copy of the pattern `pattern`, if it stands.
    pub fn pattern(&self, pattern: &str) -> (r: Option<Pattern>)
        requires
            self.well_formed(),
        ensures
            match r {
                Some(p) => exists|i: int|
                    0 <= i < self@.len() && self@[i].0 == pattern@ && p@ == #[trigger] self@[i].1,
                None => !has_pattern(self@, pattern@),
            },
    {
        let name = pattern.to_string();
        match self.find(&name) {
            Some(i) => {
                let p = &self.patterns[i];
                let copy = Pattern { timeline: copy_timeline(&p.timeline), clock: p.clock };
                assert(name@ == pattern@ && copy@ == self@[i as int].1);
                Some(copy)
            },
            None => None,
        }
    }

    /// The number of samples and the clock of the pattern `pattern`, if it stands.
    pub fn pattern_size(&self, pattern: &str) -> (r: Option<(usize, u64)>)
        requires
            self.well_formed(),
        ensures
            match r {
                Some((len, clock)) => exists|i: int|
                    0 <= i < self@.len() && #[trigger] self@[i].0 == pattern@
                        && self@[i].1.timeline.len() == len && self@[i].1.clock == clock,
                None => !has_pattern(self@, pattern@),
            },
    {
        let name = pattern.to_string();
        match self.find(&name) {
            Some(i) => {
                assert(name@ == pattern@);
                Some((self.patterns[i].timeline.len(), self.patterns[i].clock))
            },
            None => None,
        }
    }
}

} // verus!
