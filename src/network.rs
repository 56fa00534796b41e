//! What a dense classifier checks before it computes: the shapes of its
//! layers, of its gradients and of a batch, and the class of each label.
//! Its parameters, batches and gradients are held as rows (`Vec<Vec<T>>` per
//! layer), whatever their element type.

use crate::matrix::{is_rect, rows_view};
use vstd::prelude::*;

verus! {

/// Why a network refuses its input.
#[derive(Clone, Copy, Debug, PartialEq, Eq, Structural)]
pub enum NetError {
    /// Layer sizes do not chain, or a tensor has the wrong shape.
    ShapeMismatch,
    /// A label is not below the number of classes.
    LabelOutOfRange,
    /// A batch holds no example.
    EmptyBatch,
}

/// The layers of a network as sequences: matrix `l` has a row per output.
pub open spec fn layers_view<T>(w: Seq<Vec<Vec<T>>>) -> Seq<Seq<Seq<T>>> {
    w.map_values(|m: Vec<Vec<T>>| rows_view(m@))
}

/// The sizes of the layers, input first: at least two, none zero.
pub open spec fn valid_dims(dims: Seq<usize>) -> bool {
    dims.len() >= 2 && forall|k: int| 0 <= k < dims.len() ==> #[trigger] dims[k] > 0
}

/// Layer `l` maps `dims[l]` values to `dims[l + 1]`: its weights are
/// `dims[l + 1]` rows of `dims[l]` entries and its biases `dims[l + 1]`
/// values.
pub open spec fn layers_fit<T>(w: Seq<Seq<Seq<T>>>, b: Seq<Seq<T>>, dims: Seq<usize>) -> bool {
    &&& dims.len() == w.len() + 1
    &&& b.len() == w.len()
    &&& forall|l: int|
        0 <= l < w.len() ==> {
            &&& (#[trigger] w[l]).len() == dims[l + 1]
            &&& is_rect(w[l], dims[l] as int)
            &&& b[l].len() == dims[l + 1]
        }
}

/// The one-hot row of `label` among `classes` classes.
pub open spec fn one_hot_row<T>(label: int, classes: int, zero: T, one: T) -> Seq<T> {
    Seq::new(classes as nat, |j: int| if j == label { one } else { zero })
}

/// Some label is not below `classes`.
pub open spec fn label_out_of_range(labels: Seq<usize>, classes: int) -> bool {
    exists|i: int| 0 <= i < labels.len() && labels[i] >= classes
}

/// The one-hot row of `label`: `one` at the label, `zero` elsewhere; a label
/// that is not below `classes` is refused.
pub fn one_hot<T: Copy>(label: usize, classes: usize, zero: T, one: T) -> (r: Result<Vec<T>, NetError>)
    ensures
        match r {
            Ok(row) => label < classes && row@ == one_hot_row(label as int, classes as int, zero, one),
            Err(e) => label >= classes && e == NetError::LabelOutOfRange,
        },
{
    if label >= classes {
        return Err(NetError::LabelOutOfRange);
    }
    let mut row: Vec<T> = Vec::new();
    let mut j: usize = 0;
    while j < classes
        invariant
            j <= classes,
            row@ == one_hot_row(label as int, j as int, zero, one),
        decreases classes - j,
    {
        if j == label {
            row.push(one);
        } else {
            row.push(zero);
        }
        assert(row@ =~= one_hot_row(label as int, j + 1, zero, one));
        j = j + 1;
    }
    Ok(row)
}

/// The one-hot rows of all labels, one per label; refused when any label is
/// not below `classes`.
pub fn one_hot_encode<T: Copy>(labels: &Vec<usize>, classes: usize, zero: T, one: T) -> (r: Result<
    Vec<Vec<T>>,
    NetError,
>)
    ensures
        match r {
            Ok(rows) => !label_out_of_range(labels@, classes as int) && rows_view(rows@) == Seq::new(
                labels@.len(),
                |i: int| one_hot_row(labels@[i] as int, classes as int, zero, one),
            ),
            Err(e) => label_out_of_range(labels@, classes as int) && e == NetError::LabelOutOfRange,
        },
{
    let mut encoded: Vec<Vec<T>> = Vec::new();
    let mut i: usize = 0;
    while i < labels.len()
        invariant
            i <= labels@.len(),
            forall|k: int| 0 <= k < i ==> labels@[k] < classes,
            rows_view(encoded@) == Seq::new(
                i as nat,
                |k: int| one_hot_row(labels@[k] as int, classes as int, zero, one),
            ),
        decreases labels@.len() - i,
    {
        match one_hot(labels[i], classes, zero, one) {
            Ok(row) => {
                let ghost before = encoded@;
                encoded.push(row);
                assert(rows_view(encoded@) =~= Seq::new(
                    (i + 1) as nat,
                    |k: int| one_hot_row(labels@[k] as int, classes as int, zero, one),
                )) by {
                    assert(rows_view(encoded@) =~= rows_view(before).push(row@));
                }
            },
            Err(e) => {
                return Err(e);
            },
        }
        i = i + 1;
    }
    Ok(encoded)
}

/// What is wrong with a batch, if anything, checked in this order: no
/// example; a label count other than the example count, or an example of
/// other than `in_dim` features; a label not below `classes`.
pub open spec fn batch_error<T>(
    batch: Seq<Seq<T>>,
    labels: Seq<usize>,
    in_dim: int,
    classes: int,
) -> Option<NetError> {
    if batch.len() == 0 {
        Some(NetError::EmptyBatch)
    } else if labels.len() != batch.len() || !is_rect(batch, in_dim) {
        Some(NetError::ShapeMismatch)
    } else if label_out_of_range(labels, classes) {
        Some(NetError::LabelOutOfRange)
    } else {
        None
    }
}

/// What is wrong with an unlabelled batch, if anything: no example, or an
/// example of other than `in_dim` features.
pub open spec fn features_error<T>(batch: Seq<Seq<T>>, in_dim: int) -> Option<NetError> {
    if batch.len() == 0 {
        Some(NetError::EmptyBatch)
    } else if !is_rect(batch, in_dim) {
        Some(NetError::ShapeMismatch)
    } else {
        None
    }
}

/// Checks a batch of examples against a network with `in_dim` inputs.
pub fn check_features<T>(batch: &Vec<Vec<T>>, in_dim: usize) -> (r: Result<(), NetError>)
    ensures
        match r {
            Ok(()) => features_error(rows_view(batch@), in_dim as int) is None,
            Err(e) => features_error(rows_view(batch@), in_dim as int) == Some(e),
        },
{
    let ghost bv = rows_view(batch@);
    if batch.len() == 0 {
        return Err(NetError::EmptyBatch);
    }
    let mut i: usize = 0;
    while i < batch.len()
        invariant
            bv == rows_view(batch@),
            i <= batch@.len(),
            forall|k: int| 0 <= k < i ==> (#[trigger] bv[k]).len() == in_dim,
        decreases batch@.len() - i,
    {
        if batch[i].len() != in_dim {
            assert(bv[i as int].len() != in_dim);
            return Err(NetError::ShapeMismatch);
        }
        i = i + 1;
    }
    Ok(())
}

/// Checks a labelled batch against a network with `in_dim` inputs and
/// `classes` outputs.
pub fn check_batch<T>(batch: &Vec<Vec<T>>, labels: &Vec<usize>, in_dim: usize, classes: usize) -> (r:
    Result<(), NetError>)
    ensures
        match r {
            Ok(()) => batch_error(rows_view(batch@), labels@, in_dim as int, classes as int) is None,
            Err(e) => batch_error(rows_view(batch@), labels@, in_dim as int, classes as int) == Some(
                e,
            ),
        },
{
    let ghost bv = rows_view(batch@);
    match check_features(batch, in_dim) {
        Ok(()) => {},
        Err(e) => {
            return Err(e);
        },
    }
    if labels.len() != batch.len() {
        return Err(NetError::ShapeMismatch);
    }
    let mut k: usize = 0;
    while k < labels.len()
        invariant
            bv == rows_view(batch@),
            bv.len() > 0,
            labels@.len() == bv.len(),
            is_rect(bv, in_dim as int),
            k <= labels@.len(),
            forall|q: int| 0 <= q < k ==> labels@[q] < classes,
        decreases labels@.len() - k,
    {
        if labels[k] >= classes {
            return Err(NetError::LabelOutOfRange);
        }
        k = k + 1;
    }
    Ok(())
}

/// The layer sizes, input first, of a network with these weights and
/// biases; refused when the layers do not chain or a size is zero.
pub fn layer_dims<T>(weights: &Vec<Vec<Vec<T>>>, biases: &Vec<Vec<T>>) -> (r: Result<
    Vec<usize>,
    NetError,
>)
    ensures
        match r {
            Ok(dims) => valid_dims(dims@) && layers_fit(layers_view(weights@), rows_view(biases@), dims@),
            Err(e) => e == NetError::ShapeMismatch && forall|dims: Seq<usize>|
                !(valid_dims(dims) && layers_fit(layers_view(weights@), rows_view(biases@), dims)),
        },
{
    let ghost wv = layers_view(weights@);
    let ghost bv = rows_view(biases@);
    if weights.len() == 0 || biases.len() != weights.len() || weights[0].len() == 0 {
        proof {
            assert forall|d: Seq<usize>| !(valid_dims(d) && layers_fit(wv, bv, d)) by {
                if valid_dims(d) && layers_fit(wv, bv, d) {
                    assert(wv[0].len() == d[1]);
                    assert(d[1] > 0);
                }
            }
        }
        return Err(NetError::ShapeMismatch);
    }
    let in_dim = weights[0][0].len();
    if in_dim == 0 {
        proof {
            assert forall|d: Seq<usize>| !(valid_dims(d) && layers_fit(wv, bv, d)) by {
                if valid_dims(d) && layers_fit(wv, bv, d) {
                    assert(wv[0][0] == weights@[0]@[0]@);
                    assert(d[0] > 0);
                }
            }
        }
        return Err(NetError::ShapeMismatch);
    }
    let mut dims: Vec<usize> = Vec::new();
    dims.push(in_dim);
    proof {
        assert forall|d: Seq<usize>| valid_dims(d) && layers_fit(wv, bv, d) implies d[0] == in_dim by {
            assert(wv[0].len() == d[1]);
            assert(is_rect(wv[0], d[0] as int));
            assert(wv[0][0] == weights@[0]@[0]@);
        }
    }
    let mut l: usize = 0;
    while l < weights.len()
        invariant
            wv == layers_view(weights@),
            bv == rows_view(biases@),
            biases@.len() == weights@.len(),
            l <= weights@.len(),
            dims@.len() == l + 1,
            forall|k: int| 0 <= k < dims@.len() ==> #[trigger] dims@[k] > 0,
            forall|k: int|
                0 <= k < l ==> {
                    &&& (#[trigger] wv[k]).len() == dims@[k + 1]
                    &&& is_rect(wv[k], dims@[k] as int)
                    &&& bv[k].len() == dims@[k + 1]
                },
            forall|d: Seq<usize>, k: int|
                valid_dims(d) && layers_fit(wv, bv, d) && 0 <= k <= l ==> #[trigger] d[k]
                    == dims@[k],
        decreases weights@.len() - l,
    {
        let layer = &weights[l];
        let out = layer.len();
        assert(wv[l as int] == rows_view(layer@));
        if out == 0 {
            proof {
                assert forall|d: Seq<usize>| !(valid_dims(d) && layers_fit(wv, bv, d)) by {
                    if valid_dims(d) && layers_fit(wv, bv, d) {
                        assert(wv[l as int].len() == d[l + 1]);
                        assert(d[l + 1] > 0);
                    }
                }
            }
            return Err(NetError::ShapeMismatch);
        }
        let want = dims[l];
        let mut i: usize = 0;
        while i < out
            invariant
                wv == layers_view(weights@),
                l < weights@.len(),
                layer == weights@[l as int],
                out == layer@.len(),
                wv[l as int] == rows_view(layer@),
                bv == rows_view(biases@),
                biases@.len() == weights@.len(),
                dims@.len() == l + 1,
                want == dims@[l as int],
                forall|k: int| 0 <= k < dims@.len() ==> #[trigger] dims@[k] > 0,
                forall|k: int|
                    0 <= k < l ==> {
                        &&& (#[trigger] wv[k]).len() == dims@[k + 1]
                        &&& is_rect(wv[k], dims@[k] as int)
                        &&& bv[k].len() == dims@[k + 1]
                    },
                forall|d: Seq<usize>, k: int|
                    valid_dims(d) && layers_fit(wv, bv, d) && 0 <= k <= l ==> #[trigger] d[k]
                        == dims@[k],
                i <= out,
                forall|q: int| 0 <= q < i ==> (#[trigger] wv[l as int][q]).len() == want,
            decreases out - i,
        {
            if layer[i].len() != want {
                proof {
                    assert(wv[l as int][i as int] == layer@[i as int]@);
                    assert forall|d: Seq<usize>| !(valid_dims(d) && layers_fit(wv, bv, d)) by {
                        if valid_dims(d) && layers_fit(wv, bv, d) {
                            assert(d[l as int] == dims@[l as int]);
                            assert(is_rect(wv[l as int], d[l as int] as int));
                            assert(wv[l as int][i as int].len() == d[l as int]);
                        }
                    }
                }
                return Err(NetError::ShapeMismatch);
            }
            assert(wv[l as int][i as int] == layer@[i as int]@);
            i = i + 1;
        }
        if biases[l].len() != out {
            proof {
                assert(bv[l as int] == biases@[l as int]@);
                assert forall|d: Seq<usize>| !(valid_dims(d) && layers_fit(wv, bv, d)) by {
                    if valid_dims(d) && layers_fit(wv, bv, d) {
                        assert(wv[l as int].len() == d[l + 1]);
                        assert(bv[l as int].len() == d[l + 1]);
                    }
                }
            }
            return Err(NetError::ShapeMismatch);
        }
        assert(bv[l as int] == biases@[l as int]@);
        dims.push(out);
        proof {
            assert forall|d: Seq<usize>, k: int|
                valid_dims(d) && layers_fit(wv, bv, d) && 0 <= k <= l + 1 implies #[trigger] d[k]
                == dims@[k] by {
                if k == l + 1 {
                    assert(wv[l as int].len() == d[l + 1]);
                }
            }
        }
        l = l + 1;
    }
    proof {
        assert(layers_fit(wv, bv, dims@));
    }
    Ok(dims)
}

/// Two matrices have the same number of rows, and rows of the same lengths.
pub open spec fn same_shape<T, U>(a: Seq<Seq<T>>, b: Seq<Seq<U>>) -> bool {
    a.len() == b.len() && forall|i: int| 0 <= i < a.len() ==> (#[trigger] a[i]).len() == b[i].len()
}

/// Two sequences of matrices have the same number of matrices, of the same
/// shapes.
pub open spec fn same_layer_shapes<T, U>(a: Seq<Seq<Seq<T>>>, b: Seq<Seq<Seq<U>>>) -> bool {
    a.len() == b.len() && forall|l: int| 0 <= l < a.len() ==> same_shape(#[trigger] a[l], b[l])
}

/// Whether two matrices have the same shape.
fn shapes_agree<T, U>(a: &Vec<Vec<T>>, b: &Vec<Vec<U>>) -> (r: bool)
    ensures
        r == same_shape(rows_view(a@), rows_view(b@)),
{
    let ghost av = rows_view(a@);
    let ghost bv = rows_view(b@);
    if a.len() != b.len() {
        return false;
    }
    let mut i: usize = 0;
    while i < a.len()
        invariant
            av == rows_view(a@),
            bv == rows_view(b@),
            a@.len() == b@.len(),
            i <= a@.len(),
            forall|k: int| 0 <= k < i ==> (#[trigger] av[k]).len() == bv[k].len(),
        decreases a@.len() - i,
    {
        assert(av[i as int] == a@[i as int]@ && bv[i as int] == b@[i as int]@);
        if a[i].len() != b[i].len() {
            return false;
        }
        i = i + 1;
    }
    true
}

/// Checks that a gradient set has the shapes of the parameters it updates:
/// one weight gradient per weight matrix and one bias gradient per bias
/// vector, each of the same shape.
pub fn check_gradients<T, U>(
    weights: &Vec<Vec<Vec<T>>>,
    biases: &Vec<Vec<T>>,
    d_weights: &Vec<Vec<Vec<U>>>,
    d_biases: &Vec<Vec<U>>,
) -> (r: Result<(), NetError>)
    ensures
        r is Ok <==> same_layer_shapes(layers_view(weights@), layers_view(d_weights@)) && same_shape(
            rows_view(biases@),
            rows_view(d_biases@),
        ),
        r matches Err(e) ==> e == NetError::ShapeMismatch,
{
    let ghost wv = layers_view(weights@);
    let ghost dv = layers_view(d_weights@);
    if weights.len() != d_weights.len() {
        return Err(NetError::ShapeMismatch);
    }
    let mut l: usize = 0;
    while l < weights.len()
        invariant
            wv == layers_view(weights@),
            dv == layers_view(d_weights@),
            weights@.len() == d_weights@.len(),
            l <= weights@.len(),
            forall|k: int| 0 <= k < l ==> same_shape(#[trigger] wv[k], dv[k]),
        decreases weights@.len() - l,
    {
        assert(wv[l as int] == rows_view(weights@[l as int]@));
        assert(dv[l as int] == rows_view(d_weights@[l as int]@));
        if !shapes_agree(&weights[l], &d_weights[l]) {
            return Err(NetError::ShapeMismatch);
        }
        l = l + 1;
    }
    if !shapes_agree(biases, d_biases) {
        return Err(NetError::ShapeMismatch);
    }
    Ok(())
}

} // verus!
