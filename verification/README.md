# relay_curve_estimator

A desktop tool that fits IEC and IEEE inverse-time overcurrent relay curves to measured
test points (current, operating time) and ranks the curves by how well they fit.

## Layout

- `src/` is the verified library, checked with Verus:
  - `curves.rs`: the catalogue of curve standards and curve types, with its names,
    codes, formulas and descriptions;
  - `spreadsheet.rs`: the selection, navigation, editing, copy, clear and paste rules of
    the test-point table;
  - `text.rs`: the parsing of pasted tab/comma/semicolon-separated text and the cleaning
    of numeric cell text;
  - `estimator.rs`: which test points take part in a fit, the estimation errors, and the
    stable ranking of fitted curves;
  - `icon.rs`: decoding of the window icon through the `image` crate;
  - `app.rs`, `plot_view.rs`, `theme.rs`: the plain types the interface shares.
- `app/` is the egui/eframe program around the library: windows, plots, clipboard and
  file dialogs, and the floating-point curve formulas and least-squares fit.
- `tests/` runs the library on concrete values.
