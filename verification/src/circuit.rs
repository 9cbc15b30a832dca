//! The prefix circuit: a private location starts with a public geohash prefix.
//!
//! A circuit instance is two sequences of field elements, each the code of one
//! character. The relation is position-wise equality on the length of the
//! shorter one; nothing is said of the rest of the longer one.

use vstd::prelude::*;
use vstd::string::StringSliceAdditionalSpecFns;

verus! {

/// Why a circuit instance cannot be synthesised.
#[derive(Debug, Clone, Copy, PartialEq, Eq, Structural)]
pub enum CircuitError {
    /// One of the two sequences was never assigned.
    AssignmentMissing,
    /// A sequence is empty, or the public one is longer than the private one.
    InvalidInstance,
}

/// The two sequences of a circuit instance, each element below 2^64.
#[derive(Clone, Default)]
pub struct CompareCircuit {
    /// The public prefix.
    pub shorter: Option<Vec<u64>>,
    /// The private location.
    pub larger: Option<Vec<u64>>,
}

/// The mathematical content of a [`CompareCircuit`].
pub struct CircuitView {
    pub shorter: Option<Seq<u64>>,
    pub larger: Option<Seq<u64>>,
}

/// The view of an optional vector.
pub open spec fn optional_view(values: Option<Vec<u64>>) -> Option<Seq<u64>> {
    match values {
        Some(v) => Some(v@),
        None => None,
    }
}

impl View for CompareCircuit {
    type V = CircuitView;

    open spec fn view(&self) -> CircuitView {
        CircuitView { shorter: optional_view(self.shorter), larger: optional_view(self.larger) }
    }
}

/// One equality constraint: a witness variable equals an instance variable.
#[derive(Debug, Clone, Copy, PartialEq, Eq, Structural)]
pub struct Equality {
    /// Index of the private variable.
    pub witness: usize,
    /// Index of the public variable.
    pub instance: usize,
}

/// What synthesis allocates and enforces: the values of the public variables,
/// the values of the private variables, and the constraints between them.
#[derive(Debug, Clone)]
pub struct Synthesis {
    pub instance: Vec<u64>,
    pub witness: Vec<u64>,
    pub constraints: Vec<Equality>,
}

/// The mathematical content of a [`Synthesis`].
pub struct SynthesisView {
    pub instance: Seq<u64>,
    pub witness: Seq<u64>,
    pub constraints: Seq<Equality>,
}

impl View for Synthesis {
    type V = SynthesisView;

    open spec fn view(&self) -> SynthesisView {
        SynthesisView {
            instance: self.instance@,
            witness: self.witness@,
            constraints: self.constraints@,
        }
    }
}

impl SynthesisView {
    /// Every constraint names variables that were allocated.
    pub open spec fn well_formed(self) -> bool {
        forall|i: int|
            0 <= i < self.constraints.len() ==> {
                &&& (#[trigger] self.constraints[i]).witness < self.witness.len()
                &&& self.constraints[i].instance < self.instance.len()
            }
    }

    /// The assignment meets every constraint.
    pub open spec fn satisfied(self) -> bool {
        forall|i: int|
            0 <= i < self.constraints.len() ==> self.witness[(
            #[trigger] self.constraints[i]).witness as int] == self.instance[self.constraints[i].instance as int]
    }
}

/// The field elements of a text: the code of each byte, in order.
pub open spec fn field_encoding(text: Seq<u8>) -> Seq<u64> {
    Seq::new(text.len(), |i: int| text[i] as u64)
}

/// `shorter` and `larger` form an instance that can be synthesised.
pub open spec fn valid_instance(shorter: Seq<u64>, larger: Seq<u64>) -> bool {
    0 < shorter.len() <= larger.len()
}

/// `larger` starts with `shorter`.
pub open spec fn starts_with(larger: Seq<u64>, shorter: Seq<u64>) -> bool {
    shorter.len() <= larger.len() && larger.subrange(0, shorter.len() as int) == shorter
}

/// The synthesis of a valid instance: one public variable for each element of
/// `shorter`, one private variable for each of the first `shorter.len()`
/// elements of `larger`, and the equality of the two at each position.
pub open spec fn synthesis_of(shorter: Seq<u64>, larger: Seq<u64>) -> SynthesisView {
    SynthesisView {
        instance: shorter,
        witness: larger.subrange(0, shorter.len() as int),
        constraints: Seq::new(
            shorter.len(),
            |i: int| Equality { witness: i as usize, instance: i as usize },
        ),
    }
}

/// What synthesis returns for a circuit.
pub open spec fn synthesis_result(circuit: CircuitView) -> Result<SynthesisView, CircuitError> {
    match (circuit.shorter, circuit.larger) {
        (Some(shorter), Some(larger)) => if valid_instance(shorter, larger) {
            Ok(synthesis_of(shorter, larger))
        } else {
            Err(CircuitError::InvalidInstance)
        },
        _ => Err(CircuitError::AssignmentMissing),
    }
}

/// The field elements of `text`, one for each byte.
pub fn field_elements(text: &[u8]) -> (elements: Vec<u64>)
    ensures
        elements@ == field_encoding(text@),
{
    let mut elements: Vec<u64> = Vec::new();
    let mut i: usize = 0;
    while i < text.len()
        invariant
            i <= text.len(),
            elements@ == field_encoding(text@.subrange(0, i as int)),
        decreases text.len() - i,
    {
        elements.push(text[i] as u64);
        assert(elements@ =~= field_encoding(text@.subrange(0, i + 1)));
        i += 1;
    }
    assert(text@.subrange(0, text.len() as int) =~= text@);
    elements
}

impl CompareCircuit {
    /// A circuit over the two given sequences.
    pub fn new(shorter: Vec<u64>, larger: Vec<u64>) -> (circuit: Self)
        ensures
            circuit.shorter == Some(shorter),
            circuit.larger == Some(larger),
            circuit@ == (CircuitView { shorter: Some(shorter@), larger: Some(larger@) }),
    {
        Self { shorter: Some(shorter), larger: Some(larger) }
    }

    /// A circuit over the field elements of two texts.
    pub fn new_from_str(shorter: &str, larger: &str) -> (circuit: Self)
        ensures
            circuit@ == (CircuitView {
                shorter: Some(field_encoding(shorter.spec_bytes())),
                larger: Some(field_encoding(larger.spec_bytes())),
            }),
    {
        Self {
            shorter: Some(field_elements(shorter.as_bytes())),
            larger: Some(field_elements(larger.as_bytes())),
        }
    }

    /// Whether the circuit can be synthesised, and if not, why.
    pub fn check_instance(&self) -> (checked: Result<(), CircuitError>)
        ensures
            match checked {
                Ok(()) => synthesis_result(self@) is Ok,
                Err(error) => synthesis_result(self@) == Err::<SynthesisView, CircuitError>(error),
            },
    {
        match (&self.shorter, &self.larger) {
            (Some(shorter), Some(larger)) => {
                if shorter.len() == 0 || larger.len() == 0 || shorter.len() > larger.len() {
                    Err(CircuitError::InvalidInstance)
                } else {
                    Ok(())
                }
            },
            _ => Err(CircuitError::AssignmentMissing),
        }
    }

    /// Lists the variables to allocate and the constraints to enforce.
    ///
    /// Fails with `AssignmentMissing` when a sequence is absent and with
    /// `InvalidInstance` when one is empty or the public one is the longer.
    pub fn generate_constraints(&self) -> (synthesis: Result<Synthesis, CircuitError>)
        ensures
            match synthesis {
                Ok(synthesis) => {
                    &&& synthesis_result(self@) == Ok::<SynthesisView, CircuitError>(synthesis@)
                    &&& synthesis@.well_formed()
                },
                Err(error) => synthesis_result(self@) == Err::<SynthesisView, CircuitError>(error),
            },
    {
        match (&self.shorter, &self.larger) {
            (Some(shorter), Some(larger)) => {
                if shorter.len() == 0 || larger.len() == 0 || shorter.len() > larger.len() {
                    return Err(CircuitError::InvalidInstance);
                }
                let n = shorter.len();
                let mut instance: Vec<u64> = Vec::new();
                let mut witness: Vec<u64> = Vec::new();
                let mut constraints: Vec<Equality> = Vec::new();
                let mut i: usize = 0;
                while i < n
                    invariant
                        n == shorter.len(),
                        n <= larger.len(),
                        i <= n,
                        instance@ == shorter@.subrange(0, i as int),
                        witness@ == larger@.subrange(0, i as int),
                        constraints@ == Seq::new(
                            i as nat,
                            |k: int| Equality { witness: k as usize, instance: k as usize },
                        ),
                    decreases n - i,
                {
                    instance.push(shorter[i]);
                    witness.push(larger[i]);
                    constraints.push(Equality { witness: i, instance: i });
                    assert(instance@ =~= shorter@.subrange(0, i + 1));
                    assert(witness@ =~= larger@.subrange(0, i + 1));
                    assert(constraints@ =~= Seq::new(
                        (i + 1) as nat,
                        |k: int| Equality { witness: k as usize, instance: k as usize },
                    ));
                    i += 1;
                }
                assert(instance@ =~= shorter@);
                let synthesis = Synthesis { instance, witness, constraints };
                assert(synthesis@ == synthesis_of(shorter@, larger@));
                Ok(synthesis)
            },
            _ => Err(CircuitError::AssignmentMissing),
        }
    }
}

/// A valid instance is satisfiable exactly when the private sequence starts
/// with the public one.
pub proof fn lemma_satisfied_iff_prefix(shorter: Seq<u64>, larger: Seq<u64>)
    requires
        valid_instance(shorter, larger),
        larger.len() <= usize::MAX,
    ensures
        synthesis_of(shorter, larger).well_formed(),
        synthesis_of(shorter, larger).satisfied() <==> starts_with(larger, shorter),
{
    let s = synthesis_of(shorter, larger);
    let head = larger.subrange(0, shorter.len() as int);
    if s.satisfied() {
        assert forall|i: int| 0 <= i < shorter.len() implies head[i] == shorter[i] by {
            let c = s.constraints[i];
            assert(c.witness == i && c.instance == i);
        }
        assert(head =~= shorter);
    }
}

/// Synthesis rejects exactly the instances with an empty sequence or with a
/// public sequence longer than the private one, whatever the values are.
pub proof fn lemma_invalid_instance_rejected(shorter: Seq<u64>, larger: Seq<u64>)
    ensures
        (shorter.len() == 0 || larger.len() == 0 || shorter.len() > larger.len())
            <==> synthesis_result(CircuitView { shorter: Some(shorter), larger: Some(larger) })
            == Err::<SynthesisView, CircuitError>(CircuitError::InvalidInstance),
{
}

} // verus!
