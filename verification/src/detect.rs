//! Living-thing detection around the model: what goes into it and what its
//! output means.

use std::fmt::Debug;

use vstd::arithmetic::power2::pow2;
use vstd::prelude::*;
use vstd::string::*;

use crate::fitting::fitted_size;
use crate::frame::RgbFrame;
use crate::rounding::single_ratio;
use crate::single::Single;

verus! {

/// Side of the model's square input, in pixels.
pub const MODEL_INPUT_SIZE: u32 = 640;

/// Divides what is left of the canvas in half, to centre the picture in it.
pub const LETTERBOX_CENTER_DIVISOR: u32 = 2;

/// Greatest value of a colour channel.
pub const PIXEL_MAX_VALUE: u8 = 255;

/// Grey level of the canvas around the picture, the padding the model was
/// trained with.
pub const LETTERBOX_PAD_VALUE: u8 = 114;

/// Values per anchor in the model's output: box coordinates, then one score
/// for each class.
pub const YOLO_OUTPUT_CHANNELS: usize = 84;

/// Leading values per anchor that are box coordinates.
pub const YOLO_BOX_COORD_CHANNELS: usize = 4;

/// Number of classes that are living things.
pub const LIVING_THING_COUNT: usize = 11;

/// A single detection above the confidence threshold.
pub struct Detection {
    /// The detected class: a person or an animal.
    pub class_name: &'static str,
    /// The model's confidence in this detection.
    pub confidence: Single,
}

/// The model's class indices of every living thing, with their names.
pub open spec fn living_things() -> Seq<(nat, Seq<char>)> {
    seq![
        (0, "person"@),
        (14, "bird"@),
        (15, "cat"@),
        (16, "dog"@),
        (17, "horse"@),
        (18, "sheep"@),
        (19, "cow"@),
        (20, "elephant"@),
        (21, "bear"@),
        (22, "zebra"@),
        (23, "giraffe"@),
    ]
}

/// Entry `i` of the list of living things.
fn living_thing(i: usize) -> (r: (usize, &'static str))
    requires
        i < LIVING_THING_COUNT,
    ensures
        r.0 == living_things()[i as int].0,
        r.1@ == living_things()[i as int].1,
        r.0 < YOLO_OUTPUT_CHANNELS - YOLO_BOX_COORD_CHANNELS,
{
    match i {
        0 => (0, "person"),
        1 => (14, "bird"),
        2 => (15, "cat"),
        3 => (16, "dog"),
        4 => (17, "horse"),
        5 => (18, "sheep"),
        6 => (19, "cow"),
        7 => (20, "elephant"),
        8 => (21, "bear"),
        9 => (22, "zebra"),
        _ => (23, "giraffe"),
    }
}

/// The text that `Debug` formatting gives for a value, by `format!("{:?}")`.
/// Nothing is claimed of it: it is up to the type's own formatting. The
/// contract of [`ort_err`] speaks of it.
#[verifier::external_body]
pub fn debug_text<E: Debug>(value: &E) -> (r: String) {
    format!("{value:?}")
}

/// `msg`, a colon and a space, and `detail`.
pub fn with_detail(msg: &str, detail: &str) -> (r: String)
    ensures
        r@ == msg@ + ": "@ + detail@,
{
    let mut text: String = msg.to_owned();
    text.append(": ");
    text.append(detail);
    text
}

/// Passes a value through, and turns an error of the inference runtime into a
/// message that says what failed, with the error's own words behind it.
pub fn ort_err<T, E: Debug>(result: Result<T, E>, msg: &str) -> (r: Result<T, String>)
    ensures
        match result {
            Ok(value) => r == Ok::<T, String>(value),
            Err(e) => r is Err && exists|detail: String| #[trigger]
                call_ensures(debug_text::<E>, (&e,), detail) && r->Err_0@ == msg@ + ": "@ + detail@,
        },
{
    match result {
        Ok(value) => Ok(value),
        Err(e) => {
            let words = debug_text::<E>;
            let detail: String = words(&e);
            Err(with_detail(msg, detail.as_str()))
        },
    }
}

/// An execution provider that the inference runtime may run the model on.
#[derive(Clone, Copy, Debug, PartialEq, Eq, Structural)]
pub enum Provider {
    /// NVIDIA graphics cards.
    Cuda,
    /// AMD graphics cards.
    Rocm,
    /// Intel accelerators.
    OpenVino,
    /// The processor.
    Cpu,
}

/// The execution providers to register, the preferred one first.
pub open spec fn provider_order(force_cpu: bool) -> Seq<Provider> {
    if force_cpu {
        seq![Provider::Cpu]
    } else {
        seq![Provider::Cuda, Provider::Rocm, Provider::OpenVino, Provider::Cpu]
    }
}

/// The execution providers to register, the preferred one first; the first
/// that is available is used. Where the processor is forced it is registered
/// all the same: with none registered the runtime would choose by itself.
pub fn execution_providers(force_cpu: bool) -> (r: Vec<Provider>)
    ensures
        r@ == provider_order(force_cpu),
{
    let mut providers: Vec<Provider> = Vec::new();
    if !force_cpu {
        providers.push(Provider::Cuda);
        providers.push(Provider::Rocm);
        providers.push(Provider::OpenVino);
    }
    providers.push(Provider::Cpu);
    assert(providers@ =~= provider_order(force_cpu));
    providers
}

/// Whatever is preferred, the processor is there to fall back on, after
/// everything else; and nothing else is registered if it is forced.
pub proof fn processor_is_the_last_resort(force_cpu: bool, i: int)
    requires
        0 <= i < provider_order(force_cpu).len(),
    ensures
        provider_order(force_cpu)[i] == Provider::Cpu <==> i == provider_order(force_cpu).len() - 1,
        force_cpu ==> provider_order(force_cpu)[i] == Provider::Cpu,
{
}

/// What failed when the execution providers could not be registered.
pub fn registration_failure(force_cpu: bool) -> (r: &'static str)
    ensures
        r@ == if force_cpu {
            "failed to register CPU execution provider"@
        } else {
            "failed to register execution providers"@
        },
{
    if force_cpu {
        "failed to register CPU execution provider"
    } else {
        "failed to register execution providers"
    }
}

/// What failed when the model could not be loaded.
pub fn load_failure(model_path: &str) -> (r: String)
    ensures
        r@ == "failed to load model from "@ + model_path@,
{
    let mut text: String = "failed to load model from ".to_owned();
    text.append(model_path);
    text
}

/// What `image::imageops::resize` with the triangle filter makes of an RGB
/// picture, given its pixels and dimensions and the dimensions asked for.
pub uninterp spec fn triangle_resized(
    pixels: Seq<u8>,
    width: u32,
    height: u32,
    new_width: u32,
    new_height: u32,
) -> Seq<u8>;

/// Resizes with `image::imageops::resize` and the triangle filter. Claims that
/// the result has the dimensions asked for, depends on nothing but the pixels
/// and the dimensions, and is a copy where the dimensions do not change.
#[verifier::external_body]
fn resize_triangle(frame: &RgbFrame, new_width: u32, new_height: u32) -> (r: Vec<u8>)
    requires
        new_width <= MODEL_INPUT_SIZE,
        new_height <= MODEL_INPUT_SIZE,
    ensures
        r@ == triangle_resized(
            frame@.pixels,
            frame@.width,
            frame@.height,
            new_width,
            new_height,
        ),
        r@.len() == new_width * new_height * 3,
        new_width == frame@.width && new_height == frame@.height ==> r@ == frame@.pixels,
{
    let (width, height) = frame.dimensions();
    let source = image::RgbImage::from_raw(width, height, frame.as_raw().clone())
        .expect("pixel buffer matches its dimensions");
    image::imageops::resize(
        &source,
        new_width,
        new_height,
        image::imageops::FilterType::Triangle,
    )
    .into_raw()
}

/// Where a picture `extent` pixels long starts on the canvas so that it is
/// centred.
pub open spec fn letterbox_offset(extent: u32) -> int {
    (MODEL_INPUT_SIZE - extent) / (LETTERBOX_CENTER_DIVISOR as int)
}

/// The byte at position `i` of the letterboxed canvas: colour planes one after
/// another, each in rows from the top. A picture of `width` by `height` pixels
/// stands in the middle, padding everywhere else.
pub open spec fn letterboxed_byte(picture: Seq<u8>, width: u32, height: u32, i: int) -> u8 {
    let channel = i / 409_600;
    let y = (i / 640) % 640 - letterbox_offset(height);
    let x = i % 640 - letterbox_offset(width);
    if 0 <= x < width && 0 <= y < height {
        picture[(y * width + x) * 3 + channel]
    } else {
        LETTERBOX_PAD_VALUE
    }
}

/// The whole letterboxed canvas.
pub open spec fn letterboxed(picture: Seq<u8>, width: u32, height: u32) -> Seq<u8> {
    Seq::new(1_228_800, |i: int| letterboxed_byte(picture, width, height, i))
}

/// Centres a picture on the model's square canvas, pads the rest with grey,
/// and splits the colours into planes.
pub fn letterbox(picture: &[u8], width: u32, height: u32) -> (r: Vec<u8>)
    requires
        width <= MODEL_INPUT_SIZE,
        height <= MODEL_INPUT_SIZE,
        picture@.len() == width * height * 3,
    ensures
        r@ == letterboxed(picture@, width, height),
{
    let pad_x: u32 = (MODEL_INPUT_SIZE - width) / LETTERBOX_CENTER_DIVISOR;
    let pad_y: u32 = (MODEL_INPUT_SIZE - height) / LETTERBOX_CENTER_DIVISOR;
    let mut out: Vec<u8> = Vec::new();
    let mut channel: u32 = 0;
    let mut row: u32 = 0;
    let mut column: u32 = 0;
    let mut i: u32 = 0;
    while i < 1_228_800
        invariant
            width <= MODEL_INPUT_SIZE,
            height <= MODEL_INPUT_SIZE,
            picture@.len() == width * height * 3,
            pad_x == letterbox_offset(width),
            pad_y == letterbox_offset(height),
            i <= 1_228_800,
            i == channel * 409_600 + row * 640 + column,
            row < 640,
            column < 640,
            out@.len() == i,
            forall|k: int|
                0 <= k < i ==> #[trigger] out@[k] == letterboxed_byte(picture@, width, height, k),
        decreases 1_228_800 - i,
    {
        assert(channel < 3);
        proof {
            canvas_position(channel as int, row as int, column as int);
        }
        let inside: bool = column >= pad_x && column - pad_x < width && row >= pad_y && row - pad_y
            < height;
        let byte: u8 = if inside {
            let x: u32 = column - pad_x;
            let y: u32 = row - pad_y;
            assert(0 <= y * width && (y * width + x) * 3 + channel < width * height * 3 && y * width
                <= 640 * 640) by (nonlinear_arith)
                requires
                    0 <= x < width <= 640,
                    0 <= y < height <= 640,
                    0 <= channel < 3,
            ;
            picture[((y * width + x) * 3 + channel) as usize]
        } else {
            LETTERBOX_PAD_VALUE
        };
        out.push(byte);
        i = i + 1;
        if column < 639 {
            column = column + 1;
        } else {
            column = 0;
            if row < 639 {
                row = row + 1;
            } else {
                row = 0;
                channel = channel + 1;
            }
        }
    }
    assert(out@ =~= letterboxed(picture@, width, height));
    out
}

/// Whether numbers are colour values as fractions of the greatest, one for
/// one, each in single precision.
pub open spec fn normalized_from(values: Seq<Single>, bytes: Seq<u8>) -> bool {
    &&& values.len() == bytes.len()
    &&& forall|i: int|
        0 <= i < bytes.len() ==> crate::rounding::is_quotient(
            #[trigger] values[i],
            bytes[i] as int,
            PIXEL_MAX_VALUE as int,
        )
}

/// Every colour value as a fraction of the greatest.
fn fractions() -> (r: Vec<Single>)
    ensures
        r@.len() == PIXEL_MAX_VALUE + 1,
        forall|byte: int|
            0 <= byte <= PIXEL_MAX_VALUE ==> crate::rounding::is_quotient(
                #[trigger] r@[byte],
                byte,
                PIXEL_MAX_VALUE as int,
            ),
{
    let mut table: Vec<Single> = Vec::new();
    let mut byte: u32 = 0;
    while byte <= PIXEL_MAX_VALUE as u32
        invariant
            byte <= PIXEL_MAX_VALUE + 1,
            table@.len() == byte,
            forall|k: int|
                0 <= k < byte ==> crate::rounding::is_quotient(
                    #[trigger] table@[k],
                    k,
                    PIXEL_MAX_VALUE as int,
                ),
        decreases PIXEL_MAX_VALUE + 1 - byte,
    {
        table.push(single_ratio(byte, PIXEL_MAX_VALUE as u32));
        byte = byte + 1;
    }
    table
}

/// Colour values as fractions of the greatest, from zero to one.
pub fn normalized(bytes: &[u8]) -> (r: Vec<Single>)
    ensures
        normalized_from(r@, bytes@),
{
    let table: Vec<Single> = fractions();
    let mut out: Vec<Single> = Vec::new();
    let mut i: usize = 0;
    while i < bytes.len()
        invariant
            i <= bytes@.len(),
            table@.len() == PIXEL_MAX_VALUE + 1,
            forall|byte: int|
                0 <= byte <= PIXEL_MAX_VALUE ==> crate::rounding::is_quotient(
                    #[trigger] table@[byte],
                    byte,
                    PIXEL_MAX_VALUE as int,
                ),
            out@.len() == i,
            forall|k: int|
                0 <= k < i ==> crate::rounding::is_quotient(
                    #[trigger] out@[k],
                    bytes@[k] as int,
                    PIXEL_MAX_VALUE as int,
                ),
        decreases bytes@.len() - i,
    {
        out.push(table[bytes[i] as usize]);
        i = i + 1;
    }
    out
}

/// Prepares a frame for the model: resized in its own aspect ratio to fill the
/// canvas, letterboxed, and normalized, one plane of rows for each colour. A
/// stretch to the full square would distort the picture enough to cost
/// confidence.
pub fn preprocess(frame: &RgbFrame) -> (r: Vec<Single>)
    ensures
        ({
            let (new_width, new_height) = crate::fitting::fitted_dims(frame@.width, frame@.height);
            &&& normalized_from(
                r@,
                letterboxed(
                    triangle_resized(
                        frame@.pixels,
                        frame@.width,
                        frame@.height,
                        new_width as u32,
                        new_height as u32,
                    ),
                    new_width as u32,
                    new_height as u32,
                ),
            )
            &&& new_width == frame@.width && new_height == frame@.height ==> normalized_from(
                r@,
                letterboxed(frame@.pixels, frame@.width, frame@.height),
            )
        }),
{
    let (width, height) = frame.dimensions();
    let (new_width, new_height) = fitted_size(width, height);
    let resized: Vec<u8> = resize_triangle(frame, new_width, new_height);
    let canvas: Vec<u8> = letterbox(resized.as_slice(), new_width, new_height);
    normalized(canvas.as_slice())
}

/// A frame of the model's own size goes in without resizing and without
/// padding.
pub proof fn model_sized_frame_is_taken_whole(i: int)
    requires
        0 <= i < 1_228_800,
    ensures
        crate::fitting::fitted_dims(MODEL_INPUT_SIZE, MODEL_INPUT_SIZE) == (
            MODEL_INPUT_SIZE as int,
            MODEL_INPUT_SIZE as int,
        ),
        forall|picture: Seq<u8>|
            #[trigger] letterboxed_byte(picture, MODEL_INPUT_SIZE, MODEL_INPUT_SIZE, i)
                == picture[3 * (i % 409_600) + i / 409_600],
{
    crate::rounding::small_numbers_are_exact(640);
    crate::fitting::longest_side_fills_the_input(640);
    let y = (i / 640) % 640;
    let x = i % 640;
    assert(y * 640 + x == i % 409_600);
}

/// The picture is centred: the margins before and after it differ by at most
/// one pixel, the spare one being after it.
pub proof fn letterbox_is_centred(extent: u32)
    requires
        extent <= MODEL_INPUT_SIZE,
    ensures
        0 <= letterbox_offset(extent),
        letterbox_offset(extent) + extent <= MODEL_INPUT_SIZE,
        0 <= (MODEL_INPUT_SIZE - extent - letterbox_offset(extent)) - letterbox_offset(extent) <= 1,
{
}

/// A place on the canvas is found by its plane, row and column.
proof fn canvas_position(channel: int, row: int, column: int)
    requires
        0 <= channel < 3,
        0 <= row < 640,
        0 <= column < 640,
    ensures
        ({
            let i = channel * 409_600 + row * 640 + column;
            0 <= i < 1_228_800 && i / 409_600 == channel && (i / 640) % 640 == row && i % 640
                == column
        }),
{
    let i = channel * 409_600 + row * 640 + column;
    let line = channel * 640 + row;
    vstd::arithmetic::div_mod::lemma_fundamental_div_mod_converse(i, 640, line, column);
    vstd::arithmetic::div_mod::lemma_fundamental_div_mod_converse(line, 640, channel, row);
    vstd::arithmetic::div_mod::lemma_fundamental_div_mod_converse(
        i,
        409_600,
        channel,
        row * 640 + column,
    );
}

/// Every colour value of the picture stands on the canvas, moved by the
/// margins and no more.
pub proof fn letterbox_keeps_every_pixel(
    picture: Seq<u8>,
    width: u32,
    height: u32,
    x: int,
    y: int,
    channel: int,
)
    requires
        width <= MODEL_INPUT_SIZE,
        height <= MODEL_INPUT_SIZE,
        0 <= x < width,
        0 <= y < height,
        0 <= channel < 3,
    ensures
        letterboxed(picture, width, height)[channel * 409_600 + (y + letterbox_offset(height)) * 640
            + x + letterbox_offset(width)] == picture[(y * width + x) * 3 + channel],
{
    let row = y + letterbox_offset(height);
    let column = x + letterbox_offset(width);
    let i = channel * 409_600 + row * 640 + column;
    letterbox_is_centred(width);
    letterbox_is_centred(height);
    canvas_position(channel, row, column);
    assert(letterboxed(picture, width, height)[i] == letterboxed_byte(picture, width, height, i));
    assert(row - letterbox_offset(height) == y && column - letterbox_offset(width) == x);
}

/// Whether an output of this shape is one score table: one batch entry of
/// [`YOLO_OUTPUT_CHANNELS`] values for each anchor.
pub open spec fn score_table(shape: Seq<i64>) -> bool {
    shape.len() == 3 && shape[1] == YOLO_OUTPUT_CHANNELS
}

/// The score of a class at an anchor; each class has a row of its own.
pub open spec fn score(data: Seq<Single>, anchors: nat, class_index: nat, anchor: int) -> Single {
    data[(YOLO_BOX_COORD_CHANNELS + class_index) * anchors + anchor]
}

/// The best score of a class over the first `upto` anchors, of those not below
/// the threshold. A score replaces the best so far only if it is greater.
pub open spec fn best_score(
    data: Seq<Single>,
    anchors: nat,
    class_index: nat,
    threshold: Single,
    upto: nat,
) -> Option<Single>
    decreases upto,
{
    if upto == 0 {
        None
    } else {
        let before = best_score(data, anchors, class_index, threshold, (upto - 1) as nat);
        let this = score(data, anchors, class_index, upto - 1);
        if this.less(threshold) {
            before
        } else {
            match before {
                Some(best) => if best.less(this) {
                    Some(this)
                } else {
                    before
                },
                None => Some(this),
            }
        }
    }
}

/// A detection as its class name and confidence.
pub open spec fn found(detection: Detection) -> (Seq<char>, Single) {
    (detection.class_name@, detection.confidence)
}

/// What is found of the first `upto` living things: each that has a best
/// score, with that score, in the order of the list.
pub open spec fn found_living(
    data: Seq<Single>,
    anchors: nat,
    threshold: Single,
    upto: nat,
) -> Seq<(Seq<char>, Single)>
    decreases upto,
{
    if upto == 0 {
        seq![]
    } else {
        let before = found_living(data, anchors, threshold, (upto - 1) as nat);
        let (class_index, name) = living_things()[upto - 1];
        match best_score(data, anchors, class_index, threshold, anchors) {
            Some(best) => before.push((name, best)),
            None => before,
        }
    }
}

/// The best score of one class over all anchors.
fn best_of_class(
    data: &[Single],
    anchors: usize,
    class_index: usize,
    threshold: Single,
) -> (r: Option<Single>)
    requires
        class_index < YOLO_OUTPUT_CHANNELS - YOLO_BOX_COORD_CHANNELS,
        YOLO_OUTPUT_CHANNELS * anchors <= data@.len(),
    ensures
        r == best_score(data@, anchors as nat, class_index as nat, threshold, anchors as nat),
{
    let mut best: Option<Single> = None;
    let mut anchor: usize = 0;
    let total: usize = data.len();
    while anchor < anchors
        invariant
            class_index < YOLO_OUTPUT_CHANNELS - YOLO_BOX_COORD_CHANNELS,
            YOLO_OUTPUT_CHANNELS * anchors <= total,
            total == data@.len(),
            anchor <= anchors,
            best == best_score(
                data@,
                anchors as nat,
                class_index as nat,
                threshold,
                anchor as nat,
            ),
        decreases anchors - anchor,
    {
        assert(0 <= (4 + class_index) * anchors && (4 + class_index) * anchors + anchor < 84
            * anchors) by (nonlinear_arith)
            requires
                0 <= class_index < 80,
                0 <= anchor < anchors,
        ;
        let this: Single = data[(YOLO_BOX_COORD_CHANNELS + class_index) * anchors + anchor];
        if !this.less_than(threshold) {
            best = match best {
                Some(so_far) => {
                    if so_far.less_than(this) {
                        Some(this)
                    } else {
                        Some(so_far)
                    }
                },
                None => Some(this),
            };
        }
        anchor = anchor + 1;
    }
    best
}

/// Reads the model's output (its dimensions and its values, row by row) and
/// gives the living things in it whose best score is not below the threshold.
/// An output of another shape yields nothing. Boxes are not looked at: that a
/// class is present is all that matters for starting a recording.
pub fn postprocess(shape: &[i64], data: &[Single], confidence_threshold: Single) -> (r: Vec<
    Detection,
>)
    requires
        score_table(shape@) ==> shape@[2] >= 0 && YOLO_OUTPUT_CHANNELS * shape@[2] <= data@.len(),
    ensures
        r@.map_values(|d: Detection| found(d)) == if score_table(shape@) {
            found_living(
                data@,
                shape@[2] as nat,
                confidence_threshold,
                LIVING_THING_COUNT as nat,
            )
        } else {
            seq![]
        },
{
    let mut out: Vec<Detection> = Vec::new();
    assert(out@.map_values(|d: Detection| found(d)) =~= seq![]);
    if shape.len() != 3 || shape[1] != YOLO_OUTPUT_CHANNELS as i64 {
        return out;
    }
    let total: usize = data.len();
    assert(shape@[2] <= total);
    let anchors: usize = shape[2] as usize;
    let mut i: usize = 0;
    while i < LIVING_THING_COUNT
        invariant
            YOLO_OUTPUT_CHANNELS * anchors <= data@.len(),
            i <= LIVING_THING_COUNT,
            out@.map_values(|d: Detection| found(d)) == found_living(
                data@,
                anchors as nat,
                confidence_threshold,
                i as nat,
            ),
        decreases LIVING_THING_COUNT - i,
    {
        let ghost before = out@;
        let (class_index, class_name) = living_thing(i);
        if let Some(confidence) = best_of_class(data, anchors, class_index, confidence_threshold) {
            out.push(Detection { class_name, confidence });
            assert(out@.map_values(|d: Detection| found(d)) =~= before.map_values(
                |d: Detection| found(d),
            ).push((class_name@, confidence)));
        }
        i = i + 1;
    }
    out
}

/// Whether `name` is the name of one of the first `upto` living things.
pub open spec fn names_living_thing(name: Seq<char>, upto: nat) -> bool {
    exists|k: int| 0 <= k < upto && (#[trigger] living_things()[k]).1 == name
}

/// The best score is one of the class's scores and not below the threshold;
/// and there is a best score as soon as one score is not below it.
pub proof fn best_score_is_a_score(
    data: Seq<Single>,
    anchors: nat,
    class_index: nat,
    threshold: Single,
    upto: nat,
)
    ensures
        match best_score(data, anchors, class_index, threshold, upto) {
            Some(best) => !best.less(threshold) && exists|k: int|
                0 <= k < upto && #[trigger] score(data, anchors, class_index, k) == best,
            None => forall|k: int|
                0 <= k < upto ==> (#[trigger] score(data, anchors, class_index, k)).less(threshold),
        },
    decreases upto,
{
    if upto > 0 {
        best_score_is_a_score(data, anchors, class_index, threshold, (upto - 1) as nat);
        assert(score(data, anchors, class_index, upto - 1) == score(
            data,
            anchors,
            class_index,
            upto - 1,
        ));
    }
}

/// No score of the class is greater than its best score, where every score is
/// a number.
pub proof fn best_score_is_greatest(
    data: Seq<Single>,
    anchors: nat,
    class_index: nat,
    threshold: Single,
    upto: nat,
)
    requires
        !threshold.is_nan_spec(),
        forall|k: int|
            0 <= k < upto ==> !(#[trigger] score(data, anchors, class_index, k)).is_nan_spec(),
    ensures
        match best_score(data, anchors, class_index, threshold, upto) {
            Some(best) => forall|k: int|
                0 <= k < upto ==> !best.less(#[trigger] score(data, anchors, class_index, k)),
            None => true,
        },
    decreases upto,
{
    if upto > 0 {
        let before = (upto - 1) as nat;
        best_score_is_greatest(data, anchors, class_index, threshold, before);
        best_score_is_a_score(data, anchors, class_index, threshold, before);
        let this = score(data, anchors, class_index, upto - 1);
        assert(!this.is_nan_spec());
    }
}

/// Only living things are ever found, none twice, and none with a score below
/// the threshold.
pub proof fn only_living_things_are_found(
    data: Seq<Single>,
    anchors: nat,
    threshold: Single,
    upto: nat,
)
    requires
        upto <= LIVING_THING_COUNT,
    ensures
        forall|k: int|
            0 <= k < found_living(data, anchors, threshold, upto).len() ==> {
                let (name, confidence) = #[trigger] found_living(
                    data,
                    anchors,
                    threshold,
                    upto,
                )[k];
                names_living_thing(name, upto) && !confidence.less(threshold)
            },
        forall|i: int, j: int|
            0 <= i < j < found_living(data, anchors, threshold, upto).len() ==> (
            #[trigger] found_living(data, anchors, threshold, upto)[i]).0 != (
            #[trigger] found_living(data, anchors, threshold, upto)[j]).0,
    decreases upto,
{
    if upto > 0 {
        let before = (upto - 1) as nat;
        only_living_things_are_found(data, anchors, threshold, before);
        let (class_index, name) = living_things()[upto - 1];
        best_score_is_a_score(data, anchors, class_index, threshold, anchors);
        living_names_differ();
        let earlier = found_living(data, anchors, threshold, before);
        let all = found_living(data, anchors, threshold, upto);
        assert forall|k: int| 0 <= k < all.len() implies {
            let (name, confidence) = #[trigger] all[k];
            names_living_thing(name, upto) && !confidence.less(threshold)
        } by {
            if k < earlier.len() {
                assert(names_living_thing(earlier[k].0, before));
            }
        }
        assert forall|i: int, j: int| 0 <= i < j < all.len() implies (#[trigger] all[i]).0 != (
        #[trigger] all[j]).0 by {
            assert(names_living_thing(earlier[i].0, before));
        }
    }
}

/// No two living things share a name.
proof fn living_names_differ()
    ensures
        forall|i: int, j: int|
            0 <= i < j < LIVING_THING_COUNT ==> (#[trigger] living_things()[i]).1 != (
            #[trigger] living_things()[j]).1,
{
    reveal_strlit("person");
    reveal_strlit("bird");
    reveal_strlit("cat");
    reveal_strlit("dog");
    reveal_strlit("horse");
    reveal_strlit("sheep");
    reveal_strlit("cow");
    reveal_strlit("elephant");
    reveal_strlit("bear");
    reveal_strlit("zebra");
    reveal_strlit("giraffe");
    // The third letters tell all names apart but these pairs, which differ in
    // their first letter or in length.
    assert(living_things()[0].1[2] == 'r');
    assert(living_things()[1].1[2] == 'r');
    assert(living_things()[2].1[2] == 't');
    assert(living_things()[3].1[2] == 'g');
    assert(living_things()[4].1[2] == 'r');
    assert(living_things()[5].1[2] == 'e');
    assert(living_things()[6].1[2] == 'w');
    assert(living_things()[7].1[2] == 'e');
    assert(living_things()[8].1[2] == 'a');
    assert(living_things()[9].1[2] == 'b');
    assert(living_things()[10].1[2] == 'r');
    assert(living_things()[0].1[0] == 'p');
    assert(living_things()[1].1[0] == 'b');
    assert(living_things()[4].1[0] == 'h');
    assert(living_things()[10].1[0] == 'g');
    assert(living_things()[5].1[0] == 's');
    assert(living_things()[7].1[0] == 'e');
}

/// Whether one of a class's scores is not below the threshold.
pub open spec fn class_seen(
    data: Seq<Single>,
    anchors: nat,
    class_index: nat,
    threshold: Single,
) -> bool {
    exists|k: int|
        0 <= k < anchors && !(#[trigger] score(data, anchors, class_index, k)).less(threshold)
}

/// The living things, by their place in the list, of which a score is not
/// below the threshold.
pub open spec fn classes_seen(
    data: Seq<Single>,
    anchors: nat,
    threshold: Single,
    upto: nat,
) -> Set<int> {
    Set::new(
        |k: int|
            0 <= k < upto && class_seen(data, anchors, living_things()[k].0, threshold),
    )
}

/// Whether `confidence` is the best score of a class: one of its scores, not
/// below the threshold, and, where every score is a number, none less than
/// another.
pub open spec fn is_best(
    data: Seq<Single>,
    anchors: nat,
    class_index: nat,
    threshold: Single,
    confidence: Single,
) -> bool {
    &&& !confidence.less(threshold)
    &&& exists|k: int|
        0 <= k < anchors && #[trigger] score(data, anchors, class_index, k) == confidence
    &&& (!threshold.is_nan_spec() && forall|k: int|
        0 <= k < anchors ==> !(#[trigger] score(data, anchors, class_index, k)).is_nan_spec())
        ==> forall|k: int|
        0 <= k < anchors ==> !confidence.less(#[trigger] score(data, anchors, class_index, k))
}

/// A class has a best score as soon as one score is not below the threshold,
/// and that is what it is.
proof fn seen_class_has_its_best(
    data: Seq<Single>,
    anchors: nat,
    class_index: nat,
    threshold: Single,
)
    ensures
        match best_score(data, anchors, class_index, threshold, anchors) {
            Some(best) => class_seen(data, anchors, class_index, threshold) && is_best(
                data,
                anchors,
                class_index,
                threshold,
                best,
            ),
            None => !class_seen(data, anchors, class_index, threshold),
        },
{
    best_score_is_a_score(data, anchors, class_index, threshold, anchors);
    if !threshold.is_nan_spec() && forall|k: int|
        0 <= k < anchors ==> !(#[trigger] score(data, anchors, class_index, k)).is_nan_spec() {
        best_score_is_greatest(data, anchors, class_index, threshold, anchors);
    }
}

/// What is found are the living things that are seen, each with its best
/// score, and not one is left out: there are as many as are seen.
proof fn seen_classes_are_found(data: Seq<Single>, anchors: nat, threshold: Single, upto: nat)
    requires
        upto <= LIVING_THING_COUNT,
    ensures
        classes_seen(data, anchors, threshold, upto).finite(),
        found_living(data, anchors, threshold, upto).len() == classes_seen(
            data,
            anchors,
            threshold,
            upto,
        ).len(),
        forall|k: int|
            0 <= k < upto && class_seen(
                data,
                anchors,
                (#[trigger] living_things()[k]).0,
                threshold,
            ) ==> exists|j: int|
                0 <= j < found_living(data, anchors, threshold, upto).len() && {
                    let entry = #[trigger] found_living(data, anchors, threshold, upto)[j];
                    entry.0 == living_things()[k].1 && is_best(
                        data,
                        anchors,
                        living_things()[k].0,
                        threshold,
                        entry.1,
                    )
                },
    decreases upto,
{
    let all = found_living(data, anchors, threshold, upto);
    let seen = classes_seen(data, anchors, threshold, upto);
    if upto == 0 {
        assert(seen =~= Set::<int>::empty());
    } else {
        let last = upto - 1;
        let earlier = found_living(data, anchors, threshold, last as nat);
        let before = classes_seen(data, anchors, threshold, last as nat);
        let (class_index, name) = living_things()[last];
        seen_classes_are_found(data, anchors, threshold, last as nat);
        seen_class_has_its_best(data, anchors, class_index, threshold);
        if class_seen(data, anchors, class_index, threshold) {
            assert(seen =~= before.insert(last));
            assert(!before.contains(last));
        } else {
            assert(seen =~= before);
        }
        assert forall|k: int|
            0 <= k < upto && class_seen(
                data,
                anchors,
                (#[trigger] living_things()[k]).0,
                threshold,
            ) implies exists|j: int|
            0 <= j < all.len() && {
                let entry = #[trigger] all[j];
                entry.0 == living_things()[k].1 && is_best(
                    data,
                    anchors,
                    living_things()[k].0,
                    threshold,
                    entry.1,
                )
            } by {
            if k < last {
                let j = choose|j: int|
                    0 <= j < earlier.len() && {
                        let entry = #[trigger] earlier[j];
                        entry.0 == living_things()[k].1 && is_best(
                            data,
                            anchors,
                            living_things()[k].0,
                            threshold,
                            entry.1,
                        )
                    };
                assert(all[j] == earlier[j]);
            } else {
                assert(all[all.len() - 1].0 == name);
            }
        }
    }
}

/// Every living thing that is seen is found: if any anchor's score of a class
/// is not below the threshold, the class is reported by its name and with its
/// best score, whatever else is in the picture. What is reported is as many as
/// the classes that are seen.
pub proof fn every_class_seen_is_found(
    data: Seq<Single>,
    anchors: nat,
    threshold: Single,
    k: int,
    anchor: int,
)
    requires
        0 <= k < LIVING_THING_COUNT,
        0 <= anchor < anchors,
        !data[(4 + living_things()[k].0) * anchors + anchor].less(threshold),
    ensures
        ({
            let all = found_living(data, anchors, threshold, LIVING_THING_COUNT as nat);
            &&& exists|j: int|
                0 <= j < all.len() && (#[trigger] all[j]).0 == living_things()[k].1 && is_best(
                    data,
                    anchors,
                    living_things()[k].0,
                    threshold,
                    all[j].1,
                )
            &&& all.len() == classes_seen(
                data,
                anchors,
                threshold,
                LIVING_THING_COUNT as nat,
            ).len()
        }),
{
    assert(!score(data, anchors, living_things()[k].0, anchor).less(threshold));
    assert(class_seen(data, anchors, living_things()[k].0, threshold));
    seen_classes_are_found(data, anchors, threshold, LIVING_THING_COUNT as nat);
    let all = found_living(data, anchors, threshold, LIVING_THING_COUNT as nat);
    let j = choose|j: int|
        0 <= j < all.len() && {
            let entry = #[trigger] all[j];
            entry.0 == living_things()[k].1 && is_best(
                data,
                anchors,
                living_things()[k].0,
                threshold,
                entry.1,
            )
        };
    assert(all[j].0 == living_things()[k].1);
}

/// Nothing is found that is not seen: what is reported is as many as the
/// living things with a score not below the threshold, and each entry is one
/// of them, under its name and with its best score.
pub proof fn nothing_is_found_unseen(data: Seq<Single>, anchors: nat, threshold: Single, j: int)
    requires
        0 <= j < found_living(data, anchors, threshold, LIVING_THING_COUNT as nat).len(),
    ensures
        exists|k: int|
            0 <= k < LIVING_THING_COUNT && class_seen(
                data,
                anchors,
                (#[trigger] living_things()[k]).0,
                threshold,
            ) && found_living(data, anchors, threshold, LIVING_THING_COUNT as nat)[j].0
                == living_things()[k].1 && is_best(
                data,
                anchors,
                living_things()[k].0,
                threshold,
                found_living(data, anchors, threshold, LIVING_THING_COUNT as nat)[j].1,
            ),
        found_living(data, anchors, threshold, LIVING_THING_COUNT as nat).len() == classes_seen(
            data,
            anchors,
            threshold,
            LIVING_THING_COUNT as nat,
        ).len(),
{
    seen_classes_are_found(data, anchors, threshold, LIVING_THING_COUNT as nat);
    let k = source_of(data, anchors, threshold, LIVING_THING_COUNT as nat, j);
    assert(living_things()[k] == living_things()[k]);
}

/// The living thing that an entry stands for.
proof fn source_of(
    data: Seq<Single>,
    anchors: nat,
    threshold: Single,
    upto: nat,
    j: int,
) -> (k: int)
    requires
        0 <= j < found_living(data, anchors, threshold, upto).len(),
    ensures
        0 <= k < upto,
        class_seen(data, anchors, living_things()[k].0, threshold),
        found_living(data, anchors, threshold, upto)[j].0 == living_things()[k].1,
        is_best(
            data,
            anchors,
            living_things()[k].0,
            threshold,
            found_living(data, anchors, threshold, upto)[j].1,
        ),
    decreases upto,
{
    let before = (upto - 1) as nat;
    let (class_index, name) = living_things()[upto - 1];
    seen_class_has_its_best(data, anchors, class_index, threshold);
    if j < found_living(data, anchors, threshold, before).len() {
        source_of(data, anchors, threshold, before, j)
    } else {
        upto - 1
    }
}

/// What is found comes in the order of the list: of two living things that are
/// seen, the one listed first is found first.
pub proof fn found_in_the_order_of_the_list(
    data: Seq<Single>,
    anchors: nat,
    threshold: Single,
    upto: nat,
)
    requires
        upto <= LIVING_THING_COUNT,
    ensures
        exists|at: Seq<int>|
            {
                &&& at.len() == found_living(data, anchors, threshold, upto).len()
                &&& #[trigger] in_list_order(at, upto)
                &&& forall|j: int|
                    0 <= j < at.len() ==> (#[trigger] found_living(
                        data,
                        anchors,
                        threshold,
                        upto,
                    )[j]).0 == living_things()[at[j]].1
            },
    decreases upto,
{
    let all = found_living(data, anchors, threshold, upto);
    if upto == 0 {
        assert(in_list_order(Seq::<int>::empty(), upto));
    } else {
        let before = (upto - 1) as nat;
        let earlier = found_living(data, anchors, threshold, before);
        found_in_the_order_of_the_list(data, anchors, threshold, before);
        let at = choose|at: Seq<int>|
            {
                &&& at.len() == earlier.len()
                &&& #[trigger] in_list_order(at, before)
                &&& forall|j: int|
                    0 <= j < at.len() ==> (#[trigger] earlier[j]).0 == living_things()[at[j]].1
            };
        if all.len() == earlier.len() {
            assert(in_list_order(at, upto));
            assert forall|j: int| 0 <= j < at.len() implies (#[trigger] all[j]).0
                == living_things()[at[j]].1 by {
                assert(all[j] == earlier[j]);
            }
        } else {
            let more = at.push(upto - 1);
            assert(in_list_order(more, upto));
            assert forall|j: int| 0 <= j < more.len() implies (#[trigger] all[j]).0
                == living_things()[more[j]].1 by {
                if j < at.len() {
                    assert(all[j] == earlier[j]);
                }
            }
        }
    }
}

/// Whether places of the list are given in its order, none twice.
pub open spec fn in_list_order(at: Seq<int>, upto: nat) -> bool {
    &&& forall|j: int| 0 <= j < at.len() ==> 0 <= #[trigger] at[j] < upto
    &&& forall|i: int, j: int| 0 <= i < j < at.len() ==> #[trigger] at[i] < #[trigger] at[j]
}

/// The living things are the person and the run of animals among the model's
/// classes, each by its own name.
pub proof fn living_things_are_the_person_and_the_animals(k: int)
    requires
        0 <= k < LIVING_THING_COUNT,
    ensures
        living_things().len() == LIVING_THING_COUNT,
        living_things()[k].0 == if k == 0 {
            0
        } else {
            13 + k
        },
        living_things()[0].1 == "person"@,
        living_things()[14 - 13].1 == "bird"@,
        living_things()[15 - 13].1 == "cat"@,
        living_things()[16 - 13].1 == "dog"@,
        living_things()[17 - 13].1 == "horse"@,
        living_things()[18 - 13].1 == "sheep"@,
        living_things()[19 - 13].1 == "cow"@,
        living_things()[20 - 13].1 == "elephant"@,
        living_things()[21 - 13].1 == "bear"@,
        living_things()[22 - 13].1 == "zebra"@,
        living_things()[23 - 13].1 == "giraffe"@,
        living_things()[k].0 + YOLO_BOX_COORD_CHANNELS < YOLO_OUTPUT_CHANNELS,
{
}

/// The output is a table of rows, one value for each anchor: the box
/// coordinates take the first four rows and every class one after them, and
/// that row holds its scores.
pub proof fn scores_stand_in_rows(
    rows: Seq<Seq<Single>>,
    data: Seq<Single>,
    anchors: nat,
    class_index: nat,
    anchor: int,
)
    requires
        rows.len() == 84,
        class_index < 80,
        0 <= anchor < anchors,
        forall|row: int, k: int|
            0 <= row < 84 && 0 <= k < anchors ==> #[trigger] rows[row][k] == data[row * anchors
                + k],
    ensures
        score(data, anchors, class_index, anchor) == rows[class_index + 4int][anchor],
{
    assert(rows[class_index + 4int][anchor] == data[(class_index + 4int) * anchors + anchor]);
}

/// An output is read if and only if it has three dimensions, the middle one of
/// which is the number of values per anchor.
pub proof fn only_score_tables_are_read(shape: Seq<i64>, batch: i64, channels: i64, anchors: i64)
    ensures
        score_table(seq![batch, 84, anchors]),
        channels != 84 ==> !score_table(seq![batch, channels, anchors]),
        shape.len() != 3 ==> !score_table(shape),
{
}

/// Every place of the canvas that the picture does not cover is padding.
pub proof fn rest_of_the_canvas_is_padding(
    picture: Seq<u8>,
    width: u32,
    height: u32,
    row: int,
    column: int,
    channel: int,
)
    requires
        width <= MODEL_INPUT_SIZE,
        height <= MODEL_INPUT_SIZE,
        0 <= row < 640,
        0 <= column < 640,
        0 <= channel < 3,
        row < letterbox_offset(height) || row >= letterbox_offset(height) + height || column
            < letterbox_offset(width) || column >= letterbox_offset(width) + width,
    ensures
        letterboxed(picture, width, height).len() == 3 * 640 * 640,
        letterboxed(picture, width, height)[(channel * 640 + row) * 640 + column] == 114,
{
    let i = (channel * 640 + row) * 640 + column;
    assert(i == channel * 409_600 + row * 640 + column);
    canvas_position(channel, row, column);
    assert(letterboxed(picture, width, height)[i] == letterboxed_byte(picture, width, height, i));
}

/// Normalizing keeps the order of colour values, and the whole scale of them
/// goes from zero to one.
pub proof fn normalized_values_are_fractions(values: Seq<Single>, bytes: Seq<u8>, i: int)
    requires
        normalized_from(values, bytes),
        0 <= i < bytes.len(),
    ensures
        values.len() == bytes.len(),
        values[i].bits <= 0x3f80_0000,
        bytes[i] == 0 ==> values[i].bits == 0,
        bytes[i] == 255 ==> values[i].bits == 0x3f80_0000,
        -(bytes[i] * pow2(149)) <= 0x100_0000 * (values[i].units() * 255 - bytes[i] * pow2(149))
            <= bytes[i] * pow2(149),
{
    let value = values[i];
    let byte = bytes[i];
    assert(crate::rounding::is_quotient(value, byte as int, PIXEL_MAX_VALUE as int));
    crate::rounding::quotient_is_a_fraction(value, byte as u32, 255);
    crate::rounding::quotient_is_near(value, byte as u32, 255);
    if byte == 255 {
        crate::rounding::whole_is_one(value, 255);
    }
}

} // verus!
