//! Checks on what a device read back, before the bytes are taken for
//! elements.

use vstd::prelude::*;
use crate::device::ElementKind;
use crate::server::Reader;

verus! {

/// Why the bytes of a reader cannot be taken for elements of a kind and
/// rank.
#[derive(Clone, Copy, Debug, PartialEq, Eq, Structural)]
pub enum ReaderFault {
    /// The bytes are of another element kind than asked for.
    Kind { expected: ElementKind, found: ElementKind },
    /// The shape does not have the rank asked for.
    Rank { asked: usize, has: usize },
    /// The number of bytes is not the number of elements times their width.
    Length { bytes: usize },
}

/// Number of elements of a shape: the product of its extents.
pub open spec fn volume(shape: Seq<usize>) -> nat
    decreases shape.len(),
{
    if shape.len() == 0 {
        1
    } else {
        volume(shape.drop_last()) * (shape.last() as nat)
    }
}

/// The first reason, if any, why a reader of this kind, shape and number of
/// bytes does not hold elements of `kind`, `width` bytes each, in a shape of
/// rank `rank`.
pub open spec fn reader_fault(
    found: ElementKind,
    shape: Seq<usize>,
    bytes: nat,
    kind: ElementKind,
    rank: usize,
    width: usize,
) -> Option<ReaderFault> {
    if found != kind {
        Some(ReaderFault::Kind { expected: kind, found })
    } else if shape.len() != rank {
        Some(ReaderFault::Rank { asked: rank, has: shape.len() as usize })
    } else if bytes != volume(shape) * width {
        Some(ReaderFault::Length { bytes: bytes as usize })
    } else {
        None
    }
}

/// A shape with an extent of zero holds no element.
pub proof fn lemma_volume_of_empty(shape: Seq<usize>, k: int)
    requires
        0 <= k < shape.len(),
        shape[k] == 0,
    ensures
        volume(shape) == 0,
    decreases shape.len(),
{
    if k < shape.len() - 1 {
        assert(shape.drop_last()[k] == shape[k]);
        lemma_volume_of_empty(shape.drop_last(), k);
        assert(volume(shape.drop_last()) * (shape.last() as nat) == 0) by (nonlinear_arith)
            requires
                volume(shape.drop_last()) == 0,
        ;
    } else {
        assert(volume(shape.drop_last()) * (shape.last() as nat) == 0) by (nonlinear_arith)
            requires
                shape.last() == 0,
        ;
    }
}

/// Without an extent of zero, a shape holds at least as many elements as
/// any of its prefixes.
pub proof fn lemma_volume_grows(shape: Seq<usize>, i: int)
    requires
        0 <= i <= shape.len(),
        forall|k: int| 0 <= k < shape.len() ==> shape[k] >= 1,
    ensures
        1 <= volume(shape.subrange(0, i)) <= volume(shape),
    decreases shape.len() - i,
{
    if i == shape.len() {
        assert(shape.subrange(0, i) =~= shape);
        lemma_volume_positive(shape);
    } else {
        lemma_volume_grows(shape, i + 1);
        let longer = shape.subrange(0, i + 1);
        assert(longer.drop_last() =~= shape.subrange(0, i));
        assert(longer.last() == shape[i]);
        lemma_volume_positive(shape.subrange(0, i));
        assert(volume(shape.subrange(0, i)) <= volume(shape.subrange(0, i)) * (shape[i] as nat))
            by (nonlinear_arith)
            requires
                shape[i] >= 1,
        ;
    }
}

/// Without an extent of zero, a shape holds at least one element.
pub proof fn lemma_volume_positive(shape: Seq<usize>)
    requires
        forall|k: int| 0 <= k < shape.len() ==> shape[k] >= 1,
    ensures
        volume(shape) >= 1,
    decreases shape.len(),
{
    if shape.len() > 0 {
        assert forall|k: int| 0 <= k < shape.drop_last().len() implies shape.drop_last()[k]
            >= 1 by {
            assert(shape.drop_last()[k] == shape[k]);
        }
        lemma_volume_positive(shape.drop_last());
        assert(volume(shape.drop_last()) * (shape.last() as nat) >= 1) by (nonlinear_arith)
            requires
                volume(shape.drop_last()) >= 1,
                shape.last() >= 1,
        ;
    }
}

/// Whether a shape holds exactly `count` elements of `width` bytes each.
pub fn holds_exactly(shape: &Vec<usize>, width: usize, count: usize) -> (exact: bool)
    ensures
        exact == (count == volume(shape@) * width),
{
    let mut k: usize = 0;
    while k < shape.len()
        invariant
            k <= shape@.len(),
            forall|j: int| 0 <= j < k ==> shape@[j] >= 1,
        decreases shape@.len() - k,
    {
        if shape[k] == 0 {
            proof {
                lemma_volume_of_empty(shape@, k as int);
                assert(volume(shape@) * width == 0) by (nonlinear_arith)
                    requires
                        volume(shape@) == 0,
                ;
            }
            return count == 0;
        }
        k += 1;
    }
    if width == 0 {
        assert(volume(shape@) * width == 0) by (nonlinear_arith)
            requires
                width == 0,
        ;
        return count == 0;
    }
    let mut bytes: usize = width;
    let mut i: usize = 0;
    proof {
        assert(shape@.subrange(0, 0) =~= Seq::<usize>::empty());
        assert(volume(shape@.subrange(0, 0)) == 1);
        assert(1 * width == width) by (nonlinear_arith);
    }
    while i < shape.len()
        invariant
            i <= shape@.len(),
            width >= 1,
            forall|j: int| 0 <= j < shape@.len() ==> shape@[j] >= 1,
            bytes == volume(shape@.subrange(0, i as int)) * width,
            bytes >= 1,
        decreases shape@.len() - i,
    {
        let extent = shape[i];
        let ghost shorter = shape@.subrange(0, i as int);
        let ghost longer = shape@.subrange(0, i + 1);
        proof {
            assert(longer.drop_last() =~= shorter);
            assert(longer.last() == extent);
            lemma_volume_grows(shape@, i + 1);
            assert(volume(longer) * width == bytes * extent) by (nonlinear_arith)
                requires
                    volume(longer) == volume(shorter) * (extent as nat),
                    bytes == volume(shorter) * width,
            ;
            assert(volume(longer) * width <= volume(shape@) * width) by (nonlinear_arith)
                requires
                    volume(longer) <= volume(shape@),
            ;
        }
        if bytes > count || extent > count / bytes {
            proof {
                assert(bytes * extent > count) by (nonlinear_arith)
                    requires
                        bytes >= 1,
                        extent >= 1,
                        bytes > count || extent > count / bytes,
                ;
            }
            return false;
        }
        assert(1 <= bytes * extent <= count) by (nonlinear_arith)
            requires
                bytes >= 1,
                extent >= 1,
                extent <= count / bytes,
        ;
        bytes = bytes * extent;
        i += 1;
    }
    assert(shape@.subrange(0, i as int) =~= shape@);
    bytes == count
}

impl Reader {
    /// Checks that the reader holds elements of `kind`, `width` bytes each,
    /// in a shape of rank `rank`, and gives the first reason why not.
    pub fn check(&self, kind: ElementKind, rank: usize, width: usize) -> (outcome: Result<
        (),
        ReaderFault,
    >)
        ensures
            outcome == (match reader_fault(
                self.kind,
                self.shape@,
                self.bytes@.len(),
                kind,
                rank,
                width,
            ) {
                Some(fault) => Err::<(), ReaderFault>(fault),
                None => Ok::<(), ReaderFault>(()),
            }),
    {
        if self.kind != kind {
            return Err(ReaderFault::Kind { expected: kind, found: self.kind });
        }
        if self.shape.len() != rank {
            return Err(ReaderFault::Rank { asked: rank, has: self.shape.len() });
        }
        if !holds_exactly(&self.shape, width, self.bytes.len()) {
            return Err(ReaderFault::Length { bytes: self.bytes.len() });
        }
        Ok(())
    }
}

} // verus!
