//! Export of a user's track to a file, one location at a time.
//!
//! A GPX file is written as a header, one point per location, and a footer,
//! so that a stream of locations never has to be held whole. The numbers and
//! times of a point come in already written as text.
use vstd::prelude::*;
use vstd::string::StringExecFns;

verus! {

/// File types that can be exported.
#[derive(Clone, Copy, Debug, PartialEq, Eq, Structural)]
pub enum Format {
    Gpx,
}

pub const GPX_HEADER_OPEN: &'static str = "<?xml version=\"1.0\" encoding=\"UTF-8\"?>\n<gpx version=\"1.1\" creator=\"crataegus\" xmlns=\"http://www.topografix.com/GPX/1/1\">\n  <trk>\n    <name>";

pub const GPX_HEADER_CLOSE: &'static str = "</name>\n    <trkseg>\n";

pub const GPX_POINT_LAT: &'static str = "\n      <trkpt lat=\"";

pub const GPX_POINT_LON: &'static str = "\" lon=\"";

pub const GPX_POINT_ELE: &'static str = "\">\n        <ele>";

pub const GPX_POINT_TIME: &'static str = "</ele>\n        <time>";

pub const GPX_POINT_CLOSE: &'static str = "</time>\n      </trkpt>\n";

pub const GPX_FOOTER: &'static str = "\n    </trkseg>\n  </trk>\n</gpx>\n";

/// The start of a GPX file holding one track named `name`.
pub fn gpx_header(name: &str) -> (r: String)
    ensures
        r@ == GPX_HEADER_OPEN@ + name@ + GPX_HEADER_CLOSE@,
{
    let mut s = String::from_str(GPX_HEADER_OPEN);
    s.append(name);
    s.append(GPX_HEADER_CLOSE);
    s
}

/// One track point: latitude and longitude in degrees, elevation in
/// meters, and the time in RFC 3339.
pub fn gpx_point(latitude: &str, longitude: &str, elevation: &str, time: &str) -> (r: String)
    ensures
        r@ == GPX_POINT_LAT@ + latitude@ + GPX_POINT_LON@ + longitude@ + GPX_POINT_ELE@ + elevation@
            + GPX_POINT_TIME@ + time@ + GPX_POINT_CLOSE@,
{
    let mut s = String::from_str(GPX_POINT_LAT);
    s.append(latitude);
    s.append(GPX_POINT_LON);
    s.append(longitude);
    s.append(GPX_POINT_ELE);
    s.append(elevation);
    s.append(GPX_POINT_TIME);
    s.append(time);
    s.append(GPX_POINT_CLOSE);
    s
}

/// The end of a GPX file.
pub fn gpx_footer() -> (r: String)
    ensures
        r@ == GPX_FOOTER@,
{
    String::from_str(GPX_FOOTER)
}

} // verus!
