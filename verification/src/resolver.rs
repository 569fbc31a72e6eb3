//! The naming service: the request made for a colour, and what is taken from
//! its answer.

use vstd::prelude::*;
use vstd::string::*;
use crate::color::RGBValue;
use crate::decimal::push_byte;
use crate::error::ColorError;
use crate::triple::components_text;

verus! {

/// The name of a colour as the service gives it.
#[derive(Clone, Debug, PartialEq, Eq)]
pub struct ColorName {
    /// The name to show.
    pub value: String,
    /// Whether the service knows this very colour by that name.
    pub exact_match_name: bool,
}

/// What is read of the service's answer.
#[derive(Clone, Debug, PartialEq, Eq)]
pub struct ColorInformation {
    pub name: ColorName,
}

/// The address at which the service names `color`.
pub open spec fn request_text(color: RGBValue) -> Seq<char> {
    "http://www.thecolorapi.com/id?rgb="@ + components_text(color)
}

/// Builds the address to fetch for `color`.
pub fn request_url(color: RGBValue) -> (url: String)
    ensures
        url@ == request_text(color),
{
    proof {
        reveal_strlit(",");
    }
    let mut url = String::from_str("http://www.thecolorapi.com/id?rgb=");
    push_byte(&mut url, color.red);
    url.append(",");
    push_byte(&mut url, color.green);
    url.append(",");
    push_byte(&mut url, color.blue);
    assert(url@ =~= request_text(color));
    url
}

/// Whether a status code reports success.
pub open spec fn is_success(status: i32) -> bool {
    200 <= status <= 299
}

/// What is made of the service's answer: the name it gives, where the answer
/// reports success and has the expected shape.
pub open spec fn name_of_reply(status: i32, decoded: Option<ColorInformation>) -> Result<
    String,
    ColorError,
> {
    match decoded {
        Some(info) => if is_success(status) {
            Ok(info.name.value)
        } else {
            Err(ColorError::ResponseFormat)
        },
        None => Err(ColorError::ResponseFormat),
    }
}

/// Takes the name out of the service's answer: `status` is the status code
/// of the answer, `decoded` what its body held, if it had the expected shape.
/// An answer without success, or without that shape, is a response format
/// error.
pub fn resolved_name(status: i32, decoded: Option<ColorInformation>) -> (r: Result<
    String,
    ColorError,
>)
    ensures
        r == name_of_reply(status, decoded),
{
    match decoded {
        Some(info) => {
            if 200 <= status && status <= 299 {
                Ok(info.name.value)
            } else {
                Err(ColorError::ResponseFormat)
            }
        },
        None => Err(ColorError::ResponseFormat),
    }
}

} // verus!
