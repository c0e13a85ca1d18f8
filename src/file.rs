//! A file as callers see it: its name, metadata and tensors, and the reconstruction of its
//! weights, until it is unloaded.

use vstd::prelude::*;
use crate::InspectorError;
use crate::keys::{base_name_set, names_of, with_pattern, LoRAFormat};
use crate::metadata::Metadata;
use crate::network::NetworkType;
use crate::reconstruct::lora_shape;
use crate::tensor::Array;
use crate::weight::{file_tensors, BufferedLoRAWeight};
use crate::metadata::{args_key, file_metadata, lycoris_outcome};
use crate::header::header_fits;
use crate::network::{network_type_spec, NetworkModule};

verus! {

/// A result that is the error `NotLoaded`.
pub open spec fn not_loaded<T>(r: Result<T, InspectorError>) -> bool {
    r matches Err(InspectorError::NotLoaded)
}

/// A tensor file held in memory.
pub struct LoRAFile {
    filename: String,
    weights: Option<BufferedLoRAWeight>,
    metadata: Option<Metadata>,
}

impl LoRAFile {
    /// The name the file was opened under.
    pub closed spec fn filename_view(&self) -> Seq<char> {
        self.filename@
    }

    /// Whether the tensors are loaded.
    pub open spec fn is_loaded_view(&self) -> bool {
        self.weights_view() is Some
    }

    /// Whether the header's metadata could be read.
    pub closed spec fn has_metadata(&self) -> bool {
        self.metadata is Some
    }

    /// The metadata, when the header could be read.
    pub closed spec fn metadata_view(&self) -> Option<Metadata> {
        self.metadata
    }

    /// The network type is settled without the network arguments: there is no metadata, or it
    /// does not name the decomposition library's module.
    pub open spec fn type_settled(&self) -> bool {
        !self.has_metadata() || self.metadata_view()->0.module_view() != Some(NetworkModule::Lycoris)
    }

    /// The network type when it is settled without the arguments.
    pub open spec fn settled_type(&self) -> Option<NetworkType> {
        if !self.has_metadata() {
            None
        } else {
            network_type_spec(self.metadata_view()->0.module_view(), None)->Ok_0
        }
    }

    /// The tensors, while they are loaded.
    pub closed spec fn weights_view(&self) -> Option<BufferedLoRAWeight> {
        self.weights
    }

    /// Opens the tensor file in `buffer`. A buffer whose header cannot be read gives a file
    /// with no tensors and no metadata, on which every reconstruction fails with `NotLoaded`.
    pub fn new_from_buffer(buffer: &[u8], filename: &str) -> (r: LoRAFile)
        ensures
            r.filename_view() == filename@,
            r.is_loaded_view() ==> file_tensors(buffer@) is Some && r.weights_view()->0.reads(buffer@),
            header_fits(buffer@) && file_tensors(buffer@) is Some ==> r.is_loaded_view(),
            r.has_metadata() ==> file_metadata(buffer@) is Some,
            header_fits(buffer@) && file_metadata(buffer@) is Some ==> r.has_metadata(),
    {
        let metadata = match Metadata::new_from_buffer(buffer) {
            Ok(m) => Some(m),
            Err(_) => None,
        };
        let mut owned: Vec<u8> = Vec::new();
        let mut i: usize = 0;
        while i < buffer.len()
            invariant
                i <= buffer@.len(),
                owned@ == buffer@.subrange(0, i as int),
            decreases buffer.len() - i,
        {
            owned.push(buffer[i]);
            i = i + 1;
            assert(owned@ =~= buffer@.subrange(0, i as int));
        }
        assert(buffer@.subrange(0, buffer@.len() as int) =~= buffer@);
        let weights = match BufferedLoRAWeight::new(owned) {
            Ok(w) => Some(w),
            Err(_) => None,
        };
        LoRAFile { filename: String::from_str(filename), weights, metadata }
    }

    /// Releases the tensors; the name and the metadata stay.
    pub fn unload(&mut self)
        ensures
            final(self).weights_view() is None,
            !final(self).is_loaded_view(),
            final(self).filename_view() == old(self).filename_view(),
            final(self).metadata_view() == old(self).metadata_view(),
    {
        self.weights = None;
    }

    /// Whether the tensors are loaded.
    pub fn is_tensors_loaded(&self) -> (r: bool)
        ensures
            r == self.is_loaded_view(),
    {
        self.weights.is_some()
    }

    /// The name the file was opened under.
    pub fn filename(&self) -> (r: String)
        ensures
            r@ == self.filename_view(),
    {
        self.filename.clone()
    }

    /// The metadata, when the header could be read.
    pub fn metadata(&self) -> (r: &Option<Metadata>)
        ensures
            *r == self.metadata_view(),
    {
        &self.metadata
    }

    /// The names of the tensors; none once unloaded.
    pub fn keys(&self) -> (r: Vec<String>)
        ensures
            match self.weights_view() {
                Some(w) => names_of(r@) == w.key_names(),
                None => r@.len() == 0,
            },
    {
        match &self.weights {
            Some(w) => w.keys(),
            None => Vec::new(),
        }
    }

    /// The names of the denoising network's tensors; none once unloaded.
    pub fn unet_keys(&self) -> (r: Vec<String>)
        ensures
            match self.weights_view() {
                Some(w) => names_of(r@) == with_pattern(w.key_names(), "lora_unet"@),
                None => r@.len() == 0,
            },
    {
        match &self.weights {
            Some(w) => w.unet_keys(),
            None => Vec::new(),
        }
    }

    /// The names of the text encoders' tensors; none once unloaded.
    pub fn text_encoder_keys(&self) -> (r: Vec<String>)
        ensures
            match self.weights_view() {
                Some(w) => names_of(r@) == with_pattern(w.key_names(), "lora_te"@),
                None => r@.len() == 0,
            },
    {
        match &self.weights {
            Some(w) => w.text_encoder_keys(),
            None => Vec::new(),
        }
    }

    /// The weight-bearing names; none once unloaded.
    pub fn weight_keys(&self) -> (r: Vec<String>)
        ensures
            match self.weights_view() {
                Some(w) => names_of(r@) == crate::keys::weight_keys_spec(w.key_names()),
                None => r@.len() == 0,
            },
    {
        match &self.weights {
            Some(w) => w.weight_keys(),
            None => Vec::new(),
        }
    }

    /// The names of the alpha tensors; none once unloaded.
    pub fn alpha_keys(&self) -> (r: Vec<String>)
        ensures
            match self.weights_view() {
                Some(w) => names_of(r@) == with_pattern(w.key_names(), "alpha"@),
                None => r@.len() == 0,
            },
    {
        match &self.weights {
            Some(w) => w.alpha_keys(),
            None => Vec::new(),
        }
    }

    /// The distinct base names; none once unloaded.
    pub fn base_names(&self) -> (r: Vec<String>)
        ensures
            names_of(r@).no_duplicates(),
            match self.weights_view() {
                Some(w) => names_of(r@).to_set() == base_name_set(w.key_names()),
                None => r@.len() == 0,
            },
    {
        match &self.weights {
            Some(w) => w.base_names(),
            None => Vec::new(),
        }
    }

    /// The distinct ranks that the tensors show; none once unloaded.
    pub fn dims(&self) -> (r: Vec<usize>)
        ensures
            r@.no_duplicates(),
            match self.weights_view() {
                Some(w) => r@.to_set() == crate::weight::rank_set(w.header_view()),
                None => r@.len() == 0,
            },
    {
        match &self.weights {
            Some(w) => w.dims(),
            None => Vec::new(),
        }
    }

    /// The distinct first dimensions of the tensors whose names contain `pattern`; none once
    /// unloaded.
    pub fn first_dims(&self, pattern: &str) -> (r: Vec<usize>)
        ensures
            r@.no_duplicates(),
            match self.weights_view() {
                Some(w) => r@.to_set() == crate::weight::pattern_ranks(w.header_view(), pattern@),
                None => r@.len() == 0,
            },
    {
        match &self.weights {
            Some(w) => w.first_dims(pattern),
            None => Vec::new(),
        }
    }

    /// The element type of the first tensor that is not an alpha, by its short name; empty
    /// when there is none or the tensors are unloaded.
    pub fn precision(&self) -> (r: String)
        ensures
            r@ == match self.weights_view() {
                Some(w) => match crate::weight::first_non_alpha(w.header_view()) {
                    Some(d) => crate::tensor::dtype_name(d),
                    None => Seq::<char>::empty(),
                },
                None => Seq::<char>::empty(),
            },
    {
        match &self.weights {
            Some(w) => match w.precision() {
                Some(d) => d.name(),
                None => String::new(),
            },
            None => String::new(),
        }
    }

    /// The naming convention of the tensors, while they are loaded.
    pub fn format(&self) -> (r: Option<LoRAFormat>)
        ensures
            match self.weights_view() {
                Some(w) => r == Some(w.format_view()),
                None => r is None,
            },
    {
        match &self.weights {
            Some(w) => Some(w.format()),
            None => None,
        }
    }

    /// The network type that the metadata gives; none without metadata.
    pub fn network_type(&self) -> (r: Result<Option<NetworkType>, InspectorError>)
        ensures
            !self.has_metadata() ==> r matches Ok(None),
            self.type_settled() ==> r == Ok::<Option<NetworkType>, InspectorError>(self.settled_type()),
            !self.type_settled() ==> lycoris_outcome(self.metadata_view()->0.value(args_key()), r),
    {
        match &self.metadata {
            Some(m) => m.network_type(),
            None => Ok(None),
        }
    }

    /// The tensor named `k`: `NotLoaded` once unloaded, `NotFound` when the file has none.
    pub fn get(&self, k: &str) -> (r: Result<Array, InspectorError>)
        ensures
            !self.is_loaded_view() ==> r matches Err(InspectorError::NotLoaded),
            self.is_loaded_view() ==> (self.weights_view()->0.key_shape(k@) is None <==> r matches Err(
                InspectorError::NotFound,
            )),
            r matches Ok(a) ==> self.weights_view()->0.key_shape(k@) == Some(a.shape()),
    {
        match &self.weights {
            Some(w) => w.get(k),
            None => Err(InspectorError::NotLoaded),
        }
    }

    /// The weight of `base` rebuilt by the algorithm of network type `t`.
    pub fn scale_weight_as(&self, t: Option<NetworkType>, base: &str) -> (r: Result<Array, InspectorError>)
        ensures
            !self.is_loaded_view() ==> r matches Err(InspectorError::NotLoaded),
            self.is_loaded_view() ==> self.weights_view()->0.dispatch_outcome(t, base@, r),
    {
        match &self.weights {
            Some(w) => w.scale_weight_by(t, base),
            None => Err(InspectorError::NotLoaded),
        }
    }

    /// What `scale_weight` gives for `base`: `NotLoaded` once unloaded; else, where the network
    /// type is settled without the arguments, the reconstruction of that type (no type counts
    /// as the plain low-rank one).
    pub open spec fn scale_outcome(&self, base: Seq<char>, r: Result<Array, InspectorError>) -> bool {
        &&& !self.is_loaded_view() ==> not_loaded(r)
        &&& self.is_loaded_view() && self.type_settled() ==> self.weights_view()->0.dispatch_outcome(
            self.settled_type(),
            base,
            r,
        )
        &&& self.is_loaded_view() && !self.type_settled() ==> exists|t: Result<Option<NetworkType>, InspectorError>|
            #[trigger] lycoris_outcome(self.metadata_view()->0.value(args_key()), t) && (t is Err ==> r == Err::<
            Array,
            InspectorError,
        >(t->Err_0)) && (t is Ok ==> self.weights_view()->0.dispatch_outcome(t->Ok_0, base, r))
    }

    /// The weight of `base`, rebuilt by the algorithm that the metadata names; a file without
    /// a named algorithm rebuilds as plain low-rank weights. An error in the network
    /// arguments is returned as is.
    pub fn scale_weight(&self, base: &str) -> (r: Result<Array, InspectorError>)
        ensures
            self.scale_outcome(base@, r),
    {
        if self.weights.is_none() {
            return Err(InspectorError::NotLoaded);
        }
        let t = self.network_type();
        let ghost tg = t;
        match t {
            Err(e) => {
                proof {
                    if !self.type_settled() {
                        assert(lycoris_outcome(self.metadata_view()->0.value(args_key()), tg));
                    }
                }
                Err(e)
            },
            Ok(t) => {
                let r = self.scale_weight_as(t, base);
                proof {
                    if !self.type_settled() {
                        assert(lycoris_outcome(self.metadata_view()->0.value(args_key()), tg));
                    }
                }
                r
            },
        }
    }

    /// Every base name's weight, paired with its name, in the order of `base_names`; each
    /// failure stays in its place.
    pub fn scale_weights(&self) -> (r: Vec<(String, Result<Array, InspectorError>)>)
        ensures
            !self.is_loaded_view() ==> r@.len() == 0,
            self.weights_view() matches Some(w) ==> Seq::new(r@.len(), |i: int| r@[i].0@).to_set()
                == base_name_set(w.key_names()),
            forall|i: int| 0 <= i < r@.len() ==> self.scale_outcome((#[trigger] r@[i]).0@, r@[i].1),
            Seq::new(r@.len(), |i: int| r@[i].0@).no_duplicates(),
    {
        let names = self.base_names();
        let mut out: Vec<(String, Result<Array, InspectorError>)> = Vec::new();
        let mut i: usize = 0;
        while i < names.len()
            invariant
                i <= names@.len(),
                out@.len() == i,
                forall|j: int| 0 <= j < i ==> (#[trigger] out@[j]).0@ == names@[j]@,
                forall|j: int| 0 <= j < i ==> self.scale_outcome((#[trigger] out@[j]).0@, out@[j].1),
            decreases names.len() - i,
        {
            let res = self.scale_weight(names[i].as_str());
            out.push((names[i].clone(), res));
            i = i + 1;
        }
        assert(Seq::new(out@.len(), |j: int| out@[j].0@) =~= names_of(names@));
        assert(names_of(names@).no_duplicates());
        out
    }
}

} // verus!
