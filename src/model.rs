//! The closed sets of behaviours that options select from: segmentation
//! models, mask activation functions and named presets.

use vstd::prelude::*;

verus! {

/// The background-removal strategy: three segmentation networks, or the
/// local distance-based erase.
#[derive(Clone, Copy, Debug, PartialEq, Eq, Structural)]
pub enum Models {
    U2net,
    IsnetAnime,
    IsnetGeneral,
    Algorithm,
}

/// A registry entry: stable id, model file name, display name and the square
/// input resolution of the network.
#[derive(Clone, Debug)]
pub struct Model {
    pub id: usize,
    pub path: String,
    pub name: String,
    pub width: u32,
    pub height: u32,
}

/// The stable numeric id of a model, as carried by option tokens.
pub open spec fn model_id(m: Models) -> usize {
    match m {
        Models::U2net => 0,
        Models::IsnetAnime => 1,
        Models::IsnetGeneral => 2,
        Models::Algorithm => 3,
    }
}

/// The square input resolution of a model.
pub open spec fn model_resolution(m: Models) -> u32 {
    match m {
        Models::U2net => 320,
        Models::IsnetAnime => 1024,
        Models::IsnetGeneral => 1024,
        Models::Algorithm => 320,
    }
}

/// The model that an id names; unknown ids fall back to the local algorithm.
pub open spec fn model_from_id(id: usize) -> Models {
    if id == 0 {
        Models::U2net
    } else if id == 1 {
        Models::IsnetAnime
    } else if id == 2 {
        Models::IsnetGeneral
    } else {
        Models::Algorithm
    }
}

impl Models {
    /// The registry entry of this model. `path` is the model's file name,
    /// relative to the directory that holds the networks.
    pub fn to_struct(&self) -> (m: Model)
        ensures
            m.id == model_id(*self),
            m.width == model_resolution(*self),
            m.height == model_resolution(*self),
            *self == Models::U2net ==> m.path@ == "u2net.onnx"@ && m.name@ == "AI General 2"@,
            *self == Models::IsnetAnime ==> m.path@ == "isnet-anime.onnx"@ && m.name@ == "AI Anime"@,
            *self == Models::IsnetGeneral ==> m.path@ == "isnet-general-use.onnx"@ && m.name@
                == "AI General"@,
            *self == Models::Algorithm ==> m.path@ == "LOCAL"@ && m.name@ == "General"@,
    {
        match self {
            Models::U2net => Model {
                id: 0,
                path: String::from_str("u2net.onnx"),
                name: String::from_str("AI General 2"),
                width: 320,
                height: 320,
            },
            Models::IsnetAnime => Model {
                id: 1,
                path: String::from_str("isnet-anime.onnx"),
                name: String::from_str("AI Anime"),
                width: 1024,
                height: 1024,
            },
            Models::IsnetGeneral => Model {
                id: 2,
                path: String::from_str("isnet-general-use.onnx"),
                name: String::from_str("AI General"),
                width: 1024,
                height: 1024,
            },
            Models::Algorithm => Model {
                id: 3,
                path: String::from_str("LOCAL"),
                name: String::from_str("General"),
                width: 320,
                height: 320,
            },
        }
    }

    pub fn id(&self) -> (id: usize)
        ensures
            id == model_id(*self),
    {
        match self {
            Models::U2net => 0,
            Models::IsnetAnime => 1,
            Models::IsnetGeneral => 2,
            Models::Algorithm => 3,
        }
    }

    /// The square input resolution of the network.
    pub fn resolution(&self) -> (r: u32)
        ensures
            r == model_resolution(*self),
    {
        match self {
            Models::U2net => 320,
            Models::IsnetAnime => 1024,
            Models::IsnetGeneral => 1024,
            Models::Algorithm => 320,
        }
    }

    /// The model with the given id; an unknown id gives `Algorithm`.
    pub fn from_id(id: usize) -> (m: Models)
        ensures
            m == model_from_id(id),
    {
        match id {
            0 => Models::U2net,
            1 => Models::IsnetAnime,
            2 => Models::IsnetGeneral,
            _ => Models::Algorithm,
        }
    }
}

pub proof fn lemma_model_id_round_trip(m: Models)
    ensures
        model_from_id(model_id(m)) == m,
{
}

/// The remapping applied to a segmentation mask sample before it becomes an
/// alpha value.
#[derive(Clone, Copy, Debug, PartialEq, Eq, Structural)]
pub enum ActivationFunction {
    Linear,
    Sigmoid,
    ReLU,
    Tanh,
    Softmax,
}

pub open spec fn activation_id(a: ActivationFunction) -> u8 {
    match a {
        ActivationFunction::Linear => 0,
        ActivationFunction::Sigmoid => 1,
        ActivationFunction::ReLU => 2,
        ActivationFunction::Tanh => 3,
        ActivationFunction::Softmax => 4,
    }
}

pub open spec fn activation_from_id(v: u8) -> Option<ActivationFunction> {
    if v == 0 {
        Some(ActivationFunction::Linear)
    } else if v == 1 {
        Some(ActivationFunction::Sigmoid)
    } else if v == 2 {
        Some(ActivationFunction::ReLU)
    } else if v == 3 {
        Some(ActivationFunction::Tanh)
    } else if v == 4 {
        Some(ActivationFunction::Softmax)
    } else {
        None
    }
}

/// The steep S-curve `255 / (1 + e^(-(x/255 - 0.5) / 0.1))`, rounded down,
/// with 0 below 5 and 255 above 250.
pub open spec fn sigmoid_of(x: u8) -> u8 {
    if x <= 4 { 0 } else if x <= 14 { 2 } else if x <= 21 { 3 } else if x <= 27 { 4 }
    else if x <= 32 { 5 } else if x <= 36 { 6 } else if x <= 40 { 7 } else if x <= 43 { 8 }
    else if x <= 45 { 9 } else if x <= 48 { 10 } else if x <= 50 { 11 } else if x <= 52 { 12 }
    else if x <= 54 { 13 } else if x <= 56 { 14 } else if x <= 58 { 15 } else if x <= 60 { 16 }
    else if x <= 61 { 17 } else if x <= 63 { 18 } else if x <= 64 { 19 } else if x <= 66 { 20 }
    else if x <= 67 { 21 } else if x <= 68 { 22 } else if x <= 69 { 23 } else if x <= 70 { 24 }
    else if x <= 72 { 25 } else if x <= 73 { 26 } else if x <= 74 { 27 } else if x <= 75 { 28 }
    else if x <= 76 { 29 } else if x <= 77 { 30 } else if x <= 78 { 32 } else if x <= 79 { 33 }
    else if x <= 80 { 34 } else if x <= 81 { 35 } else if x <= 82 { 36 } else if x <= 83 { 37 }
    else if x <= 84 { 39 } else if x <= 85 { 40 } else if x <= 86 { 41 } else if x <= 87 { 43 }
    else if x <= 88 { 44 } else if x <= 89 { 46 } else if x <= 90 { 47 } else if x <= 91 { 49 }
    else if x <= 92 { 50 } else if x <= 93 { 52 } else if x <= 94 { 54 } else if x <= 95 { 55 }
    else if x <= 96 { 57 } else if x <= 97 { 59 } else if x <= 98 { 61 } else if x <= 99 { 62 }
    else if x <= 100 { 64 } else if x <= 101 { 66 } else if x <= 102 { 68 }
    else if x <= 103 { 70 } else if x <= 104 { 72 } else if x <= 105 { 74 }
    else if x <= 106 { 76 } else if x <= 107 { 78 } else if x <= 108 { 80 }
    else if x <= 109 { 83 } else if x <= 110 { 85 } else if x <= 111 { 87 }
    else if x <= 112 { 89 } else if x <= 113 { 92 } else if x <= 114 { 94 }
    else if x <= 115 { 96 } else if x <= 116 { 99 } else if x <= 117 { 101 }
    else if x <= 118 { 104 } else if x <= 119 { 106 } else if x <= 120 { 108 }
    else if x <= 121 { 111 } else if x <= 122 { 113 } else if x <= 123 { 116 }
    else if x <= 124 { 118 } else if x <= 125 { 121 } else if x <= 126 { 123 }
    else if x <= 127 { 126 } else if x <= 128 { 128 } else if x <= 129 { 131 }
    else if x <= 130 { 133 } else if x <= 131 { 136 } else if x <= 132 { 138 }
    else if x <= 133 { 141 } else if x <= 134 { 143 } else if x <= 135 { 146 }
    else if x <= 136 { 148 } else if x <= 137 { 150 } else if x <= 138 { 153 }
    else if x <= 139 { 155 } else if x <= 140 { 158 } else if x <= 141 { 160 }
    else if x <= 142 { 162 } else if x <= 143 { 165 } else if x <= 144 { 167 }
    else if x <= 145 { 169 } else if x <= 146 { 171 } else if x <= 147 { 174 }
    else if x <= 148 { 176 } else if x <= 149 { 178 } else if x <= 150 { 180 }
    else if x <= 151 { 182 } else if x <= 152 { 184 } else if x <= 153 { 186 }
    else if x <= 154 { 188 } else if x <= 155 { 190 } else if x <= 156 { 192 }
    else if x <= 157 { 193 } else if x <= 158 { 195 } else if x <= 159 { 197 }
    else if x <= 160 { 199 } else if x <= 161 { 200 } else if x <= 162 { 202 }
    else if x <= 163 { 204 } else if x <= 164 { 205 } else if x <= 165 { 207 }
    else if x <= 166 { 208 } else if x <= 167 { 210 } else if x <= 168 { 211 }
    else if x <= 169 { 213 } else if x <= 170 { 214 } else if x <= 171 { 215 }
    else if x <= 172 { 217 } else if x <= 173 { 218 } else if x <= 174 { 219 }
    else if x <= 175 { 220 } else if x <= 176 { 221 } else if x <= 177 { 222 }
    else if x <= 178 { 224 } else if x <= 179 { 225 } else if x <= 180 { 226 }
    else if x <= 181 { 227 } else if x <= 182 { 228 } else if x <= 184 { 229 }
    else if x <= 185 { 230 } else if x <= 186 { 231 } else if x <= 187 { 232 }
    else if x <= 188 { 233 } else if x <= 190 { 234 } else if x <= 191 { 235 }
    else if x <= 193 { 236 } else if x <= 194 { 237 } else if x <= 196 { 238 }
    else if x <= 198 { 239 } else if x <= 200 { 240 } else if x <= 202 { 241 }
    else if x <= 204 { 242 } else if x <= 206 { 243 } else if x <= 209 { 244 }
    else if x <= 211 { 245 } else if x <= 214 { 246 } else if x <= 218 { 247 }
    else if x <= 222 { 248 } else if x <= 227 { 249 } else if x <= 233 { 250 }
    else if x <= 240 { 251 } else if x <= 250 { 252 } else { 255 }
}

/// What a mask sample becomes under an activation function: the sigmoid
/// reshapes it, every other function passes it through.
pub open spec fn activation_of(a: ActivationFunction, x: u8) -> u8 {
    match a {
        ActivationFunction::Sigmoid => sigmoid_of(x),
        _ => x,
    }
}

/// The display name of an activation function.
pub open spec fn activation_name(a: ActivationFunction) -> Seq<char> {
    match a {
        ActivationFunction::Linear => "Linear"@,
        ActivationFunction::Sigmoid => "Sigmoid"@,
        ActivationFunction::ReLU => "ReLU"@,
        ActivationFunction::Tanh => "Tanh"@,
        ActivationFunction::Softmax => "Softmax"@,
    }
}

/// The next function in the toggle cycle `Linear -> Sigmoid -> Linear`.
pub open spec fn next_activation(a: ActivationFunction) -> ActivationFunction {
    if a == ActivationFunction::Linear {
        ActivationFunction::Sigmoid
    } else {
        ActivationFunction::Linear
    }
}

impl ActivationFunction {
    pub fn from_u8(value: u8) -> (a: Option<ActivationFunction>)
        ensures
            a == activation_from_id(value),
    {
        match value {
            0 => Some(ActivationFunction::Linear),
            1 => Some(ActivationFunction::Sigmoid),
            2 => Some(ActivationFunction::ReLU),
            3 => Some(ActivationFunction::Tanh),
            4 => Some(ActivationFunction::Softmax),
            _ => None,
        }
    }

    pub fn id(&self) -> (v: u8)
        ensures
            v == activation_id(*self),
    {
        match self {
            ActivationFunction::Linear => 0,
            ActivationFunction::Sigmoid => 1,
            ActivationFunction::ReLU => 2,
            ActivationFunction::Tanh => 3,
            ActivationFunction::Softmax => 4,
        }
    }

    pub fn as_str(&self) -> (s: &str)
        ensures
            s@ == activation_name(*self),
            *self == ActivationFunction::Linear ==> s@ == "Linear"@,
            *self == ActivationFunction::Sigmoid ==> s@ == "Sigmoid"@,
            *self == ActivationFunction::ReLU ==> s@ == "ReLU"@,
            *self == ActivationFunction::Tanh ==> s@ == "Tanh"@,
            *self == ActivationFunction::Softmax ==> s@ == "Softmax"@,
    {
        match self {
            ActivationFunction::Linear => "Linear",
            ActivationFunction::Sigmoid => "Sigmoid",
            ActivationFunction::ReLU => "ReLU",
            ActivationFunction::Tanh => "Tanh",
            ActivationFunction::Softmax => "Softmax",
        }
    }

    /// The next function in the toggle cycle `Linear -> Sigmoid -> Linear`.
    pub fn next(&self) -> (a: ActivationFunction)
        requires
            *self == ActivationFunction::Linear || *self == ActivationFunction::Sigmoid,
        ensures
            a == next_activation(*self),
    {
        match self {
            ActivationFunction::Linear => ActivationFunction::Sigmoid,
            _ => ActivationFunction::Linear,
        }
    }

    /// Applies the function to one mask sample.
    pub fn apply(&self, x: u8) -> (y: u8)
        ensures
            y == activation_of(*self, x),
    {
        match self {
            ActivationFunction::Sigmoid => sigmoid(x),
            _ => x,
        }
    }
}

pub proof fn lemma_activation_id_round_trip(a: ActivationFunction)
    ensures
        activation_from_id(activation_id(a)) == Some(a),
{
}

/// The sigmoid activation on one mask sample.
pub fn sigmoid(x: u8) -> (y: u8)
    ensures
        y == sigmoid_of(x),
{
    if x <= 4 { 0 } else if x <= 14 { 2 } else if x <= 21 { 3 } else if x <= 27 { 4 }
    else if x <= 32 { 5 } else if x <= 36 { 6 } else if x <= 40 { 7 } else if x <= 43 { 8 }
    else if x <= 45 { 9 } else if x <= 48 { 10 } else if x <= 50 { 11 } else if x <= 52 { 12 }
    else if x <= 54 { 13 } else if x <= 56 { 14 } else if x <= 58 { 15 } else if x <= 60 { 16 }
    else if x <= 61 { 17 } else if x <= 63 { 18 } else if x <= 64 { 19 } else if x <= 66 { 20 }
    else if x <= 67 { 21 } else if x <= 68 { 22 } else if x <= 69 { 23 } else if x <= 70 { 24 }
    else if x <= 72 { 25 } else if x <= 73 { 26 } else if x <= 74 { 27 } else if x <= 75 { 28 }
    else if x <= 76 { 29 } else if x <= 77 { 30 } else if x <= 78 { 32 } else if x <= 79 { 33 }
    else if x <= 80 { 34 } else if x <= 81 { 35 } else if x <= 82 { 36 } else if x <= 83 { 37 }
    else if x <= 84 { 39 } else if x <= 85 { 40 } else if x <= 86 { 41 } else if x <= 87 { 43 }
    else if x <= 88 { 44 } else if x <= 89 { 46 } else if x <= 90 { 47 } else if x <= 91 { 49 }
    else if x <= 92 { 50 } else if x <= 93 { 52 } else if x <= 94 { 54 } else if x <= 95 { 55 }
    else if x <= 96 { 57 } else if x <= 97 { 59 } else if x <= 98 { 61 } else if x <= 99 { 62 }
    else if x <= 100 { 64 } else if x <= 101 { 66 } else if x <= 102 { 68 }
    else if x <= 103 { 70 } else if x <= 104 { 72 } else if x <= 105 { 74 }
    else if x <= 106 { 76 } else if x <= 107 { 78 } else if x <= 108 { 80 }
    else if x <= 109 { 83 } else if x <= 110 { 85 } else if x <= 111 { 87 }
    else if x <= 112 { 89 } else if x <= 113 { 92 } else if x <= 114 { 94 }
    else if x <= 115 { 96 } else if x <= 116 { 99 } else if x <= 117 { 101 }
    else if x <= 118 { 104 } else if x <= 119 { 106 } else if x <= 120 { 108 }
    else if x <= 121 { 111 } else if x <= 122 { 113 } else if x <= 123 { 116 }
    else if x <= 124 { 118 } else if x <= 125 { 121 } else if x <= 126 { 123 }
    else if x <= 127 { 126 } else if x <= 128 { 128 } else if x <= 129 { 131 }
    else if x <= 130 { 133 } else if x <= 131 { 136 } else if x <= 132 { 138 }
    else if x <= 133 { 141 } else if x <= 134 { 143 } else if x <= 135 { 146 }
    else if x <= 136 { 148 } else if x <= 137 { 150 } else if x <= 138 { 153 }
    else if x <= 139 { 155 } else if x <= 140 { 158 } else if x <= 141 { 160 }
    else if x <= 142 { 162 } else if x <= 143 { 165 } else if x <= 144 { 167 }
    else if x <= 145 { 169 } else if x <= 146 { 171 } else if x <= 147 { 174 }
    else if x <= 148 { 176 } else if x <= 149 { 178 } else if x <= 150 { 180 }
    else if x <= 151 { 182 } else if x <= 152 { 184 } else if x <= 153 { 186 }
    else if x <= 154 { 188 } else if x <= 155 { 190 } else if x <= 156 { 192 }
    else if x <= 157 { 193 } else if x <= 158 { 195 } else if x <= 159 { 197 }
    else if x <= 160 { 199 } else if x <= 161 { 200 } else if x <= 162 { 202 }
    else if x <= 163 { 204 } else if x <= 164 { 205 } else if x <= 165 { 207 }
    else if x <= 166 { 208 } else if x <= 167 { 210 } else if x <= 168 { 211 }
    else if x <= 169 { 213 } else if x <= 170 { 214 } else if x <= 171 { 215 }
    else if x <= 172 { 217 } else if x <= 173 { 218 } else if x <= 174 { 219 }
    else if x <= 175 { 220 } else if x <= 176 { 221 } else if x <= 177 { 222 }
    else if x <= 178 { 224 } else if x <= 179 { 225 } else if x <= 180 { 226 }
    else if x <= 181 { 227 } else if x <= 182 { 228 } else if x <= 184 { 229 }
    else if x <= 185 { 230 } else if x <= 186 { 231 } else if x <= 187 { 232 }
    else if x <= 188 { 233 } else if x <= 190 { 234 } else if x <= 191 { 235 }
    else if x <= 193 { 236 } else if x <= 194 { 237 } else if x <= 196 { 238 }
    else if x <= 198 { 239 } else if x <= 200 { 240 } else if x <= 202 { 241 }
    else if x <= 204 { 242 } else if x <= 206 { 243 } else if x <= 209 { 244 }
    else if x <= 211 { 245 } else if x <= 214 { 246 } else if x <= 218 { 247 }
    else if x <= 222 { 248 } else if x <= 227 { 249 } else if x <= 233 { 250 }
    else if x <= 240 { 251 } else if x <= 250 { 252 } else { 255 }
}

/// The sigmoid cuts off below 5 and above 250, and never decreases.
pub proof fn lemma_sigmoid_shape(x: u8, y: u8)
    requires
        x <= y,
    ensures
        x <= 4 ==> sigmoid_of(x) == 0,
        251 <= x ==> sigmoid_of(x) == 255,
        sigmoid_of(x) <= sigmoid_of(y),
    decreases y - x,
{
    if x < y {
        lemma_sigmoid_shape(x, (y - 1) as u8);
        lemma_sigmoid_steps();
        assert(sigmoid_of((y - 1) as u8) <= sigmoid_of(((y - 1) as u8 + 1) as u8));
    }
}

proof fn lemma_sigmoid_steps()
    ensures
        forall|i: u8| i < 255 ==> sigmoid_of(i) <= #[trigger] sigmoid_of((i + 1) as u8),
{
}

/// A named set of options offered as a one-click choice.
#[derive(Clone, Copy, Debug, PartialEq, Eq, Structural)]
pub enum NordPreset {
    NordWithColor,
    Nord,
    StaticBackground,
    DynamicBackground,
}

impl NordPreset {
    /// All presets, in the order they are offered.
    pub fn iter() -> (v: Vec<NordPreset>)
        ensures
            v@ == seq![
                NordPreset::NordWithColor,
                NordPreset::Nord,
                NordPreset::StaticBackground,
                NordPreset::DynamicBackground,
            ],
    {
        vec![
            NordPreset::NordWithColor,
            NordPreset::Nord,
            NordPreset::StaticBackground,
            NordPreset::DynamicBackground,
        ]
    }
}

} // verus!
